use vstd::prelude::*;
use vstd::string::*;

use crate::text::{lines, lines_str, owned, str_eq, views};
use crate::utils_parsing::{first_field, pop_first_string, read_setting, setting_entry};

verus! {

broadcast use vstd::string::group_string_axioms;

/// The game's basic settings.
pub struct Settings {
    pub game: String,
    pub description: String,
    pub version: String,
    pub language: String,
}

/// The four setting texts: game, description, version, language.
pub type SettingsModel = (Seq<char>, Seq<char>, Seq<char>, Seq<char>);

impl Settings {
    /// The four setting texts.
    pub open spec fn model(&self) -> SettingsModel {
        (self.game@, self.description@, self.version@, self.language@)
    }
}

/// The settings after one line of the settings file: a `game`, `description`, `version` or
/// `language` line sets that text to the first field of its value.
pub open spec fn apply_setting(m: SettingsModel, line: Seq<char>) -> SettingsModel {
    match setting_entry(line) {
        Some((k, v)) => {
            let f = first_field(v).0;
            if k == "game"@ {
                (f, m.1, m.2, m.3)
            } else if k == "description"@ {
                (m.0, f, m.2, m.3)
            } else if k == "version"@ {
                (m.0, m.1, f, m.3)
            } else if k == "language"@ {
                (m.0, m.1, m.2, f)
            } else {
                m
            }
        },
        None => m,
    }
}

/// The settings after the given lines, read in order.
pub open spec fn apply_settings(m: SettingsModel, ls: Seq<Seq<char>>) -> SettingsModel
    decreases ls.len(),
{
    if ls.len() == 0 {
        m
    } else {
        apply_setting(apply_settings(m, ls.drop_last()), ls.last())
    }
}

impl Settings {
    /// Settings whose texts are all empty.
    pub fn new() -> (r: Self)
        ensures
            r.model() == (Seq::<char>::empty(), Seq::<char>::empty(), Seq::<char>::empty(), Seq::<
                char,
            >::empty()),
    {
        Settings {
            game: String::new(),
            description: String::new(),
            version: String::new(),
            language: String::new(),
        }
    }

    /// Sets the game's name.
    pub fn set_game(&mut self, s: &str)
        ensures
            final(self).game@ == s@,
            final(self).description == old(self).description,
            final(self).version == old(self).version,
            final(self).language == old(self).language,
    {
        self.game = owned(s);
    }

    /// Reads the text of a settings file into these settings (see `apply_setting`).
    pub fn load(&mut self, content: &str)
        ensures
            final(self).model() == apply_settings(old(self).model(), lines(content@)),
    {
        let ls = lines_str(content);
        let ghost lv = lines(content@);
        let ghost m0 = self.model();
        let mut i: usize = 0;
        assert(lv.take(0) =~= seq![]);
        while i < ls.len()
            invariant
                views(ls@) == lv,
                lv == lines(content@),
                i <= ls@.len(),
                self.model() == apply_settings(m0, lv.take(i as int)),
            decreases ls@.len() - i,
        {
            let line = &ls[i];
            let ghost t = lv.take(i + 1);
            assert(line@ == lv[i as int]);
            assert(t.drop_last() =~= lv.take(i as int));
            assert(t.last() == lv[i as int]);
            match read_setting(line.as_str()) {
                Some((key, val)) => {
                    let (outs, _remains) = pop_first_string(val.as_str());
                    let k = key.as_str();
                    if str_eq(k, "game") {
                        self.game = outs;
                    } else if str_eq(k, "description") {
                        self.description = outs;
                    } else if str_eq(k, "version") {
                        self.version = outs;
                    } else if str_eq(k, "language") {
                        self.language = outs;
                    }
                },
                None => {},
            }
            i += 1;
        }
        assert(lv.take(ls@.len() as int) =~= lv);
    }
}

/// The program's settings, once made.
pub struct SettingsSlot {
    pub settings: Option<Settings>,
}

impl SettingsSlot {
    /// No settings made yet.
    pub fn new() -> (r: Self)
        ensures
            r.settings is None,
    {
        SettingsSlot { settings: None }
    }
}

/// Makes empty settings, unless there are settings already.
pub fn init_settings(slot: &mut SettingsSlot)
    ensures
        old(slot).settings is Some ==> *final(slot) == *old(slot),
        old(slot).settings is None ==> (final(slot).settings matches Some(s) && s.model() == (
            Seq::<char>::empty(),
            Seq::<char>::empty(),
            Seq::<char>::empty(),
            Seq::<char>::empty(),
        )),
{
    if slot.settings.is_none() {
        slot.settings = Some(Settings::new());
    }
}

/// Reads the text of the settings file into the settings, which must have been made.
pub fn load_settings(slot: &mut SettingsSlot, content: &str)
    requires
        old(slot).settings is Some,
    ensures
        final(slot).settings matches Some(s) && s.model() == apply_settings(
            old(slot).settings.unwrap().model(),
            lines(content@),
        ),
{
    match &mut slot.settings {
        Some(s) => s.load(content),
        None => {},
    }
}

/// Sets the game's name in the settings, which must have been made.
pub fn set_name(slot: &mut SettingsSlot, s: &str)
    requires
        old(slot).settings is Some,
    ensures
        final(slot).settings matches Some(t) && t.game@ == s@ && t.description == old(
            slot,
        ).settings.unwrap().description && t.version == old(slot).settings.unwrap().version
            && t.language == old(slot).settings.unwrap().language,
{
    match &mut slot.settings {
        Some(t) => t.set_game(s),
        None => {},
    }
}

}
