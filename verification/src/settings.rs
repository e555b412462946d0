//! The settings of a camera that can be read and changed.

use vstd::prelude::*;
use vstd::string::*;

use crate::text::same;

verus! {

/// A setting: its name, and the attribute of the camera that holds it.
#[derive(Debug)]
pub struct Setting {
    pub name: &'static str,
    pub attribute: &'static str,
}

/// What a setting consists of, as plain text.
pub struct SettingModel {
    pub name: Seq<char>,
    pub attribute: Seq<char>,
}

impl View for Setting {
    type V = SettingModel;

    open spec fn view(&self) -> SettingModel {
        SettingModel { name: self.name@, attribute: self.attribute@ }
    }
}

/// All settings.
pub open spec fn known() -> Seq<SettingModel> {
    seq![SettingModel { name: "night-vision"@, attribute: "IrLedMode"@ }]
}

/// The plain text of some settings.
pub open spec fn models(settings: Seq<Setting>) -> Seq<SettingModel> {
    settings.map_values(|s: Setting| s@)
}

/// All settings.
pub fn all() -> (r: Vec<Setting>)
    ensures
        models(r@) == known(),
{
    let mut r: Vec<Setting> = Vec::new();
    r.push(Setting { name: "night-vision", attribute: "IrLedMode" });
    assert(models(r@) =~= known());
    r
}

/// The first of `settings` that has the name `name`.
pub open spec fn named(settings: Seq<SettingModel>, name: Seq<char>) -> Option<SettingModel>
    decreases settings.len(),
{
    if settings.len() == 0 {
        None
    } else if settings[0].name == name {
        Some(settings[0])
    } else {
        named(settings.skip(1), name)
    }
}

/// The setting that has the name `name`.
pub fn find(name: &str) -> (r: Option<Setting>)
    ensures
        match r {
            Some(s) => named(known(), name@) == Some(s@),
            None => named(known(), name@) is None,
        },
{
    let settings = all();
    let mut i: usize = 0;
    assert(models(settings@).skip(0) =~= known());
    while i < settings.len()
        invariant
            i <= settings.len(),
            models(settings@) == known(),
            named(known(), name@) == named(models(settings@).skip(i as int), name@),
        decreases settings.len() - i,
    {
        assert(models(settings@).skip(i as int)[0] == settings@[i as int]@);
        assert(models(settings@).skip(i as int).skip(1) =~= models(settings@).skip(i + 1));
        if same(settings[i].name, name) {
            return Some(Setting { name: settings[i].name, attribute: settings[i].attribute });
        }
        i += 1;
    }
    None
}

/// The value that a text stands for: a word or its number.
pub open spec fn value_of(t: Seq<char>) -> Option<i64> {
    if t == "off"@ || t == "0"@ {
        Some(0)
    } else if t == "on"@ || t == "1"@ {
        Some(1)
    } else if t == "auto"@ || t == "2"@ {
        Some(2)
    } else {
        None
    }
}

/// The word for a value.
pub open spec fn label_of(value: i64) -> Seq<char> {
    if value == 0 {
        "off"@
    } else if value == 1 {
        "on"@
    } else if value == 2 {
        "auto"@
    } else {
        "unknown"@
    }
}

impl Setting {
    /// The value that a text stands for: a word or its number.
    pub fn parse(&self, text: &str) -> (r: Option<i64>)
        ensures
            r == value_of(text@),
    {
        if same(text, "off") || same(text, "0") {
            Some(0)
        } else if same(text, "on") || same(text, "1") {
            Some(1)
        } else if same(text, "auto") || same(text, "2") {
            Some(2)
        } else {
            None
        }
    }

    /// The word for a value.
    pub fn label(&self, value: i64) -> (r: &'static str)
        ensures
            r@ == label_of(value),
    {
        if value == 0 {
            "off"
        } else if value == 1 {
            "on"
        } else if value == 2 {
            "auto"
        } else {
            "unknown"
        }
    }
}

/// The word for a value stands for that value; the word for an unknown one stands for none.
pub proof fn law_label_parses(value: i64)
    ensures
        0 <= value <= 2 ==> value_of(label_of(value)) == Some(value),
        !(0 <= value <= 2) ==> value_of(label_of(value)) is None,
{
    reveal_strlit("off");
    reveal_strlit("on");
    reveal_strlit("auto");
    reveal_strlit("unknown");
    reveal_strlit("0");
    reveal_strlit("1");
    reveal_strlit("2");
    assert("off"@.len() == 3 && "on"@.len() == 2 && "auto"@.len() == 4);
    assert("unknown"@.len() == 7);
    assert("0"@.len() == 1 && "1"@.len() == 1 && "2"@.len() == 1);
}

/// A text stands for one of the values 0, 1 and 2, or for none.
pub proof fn law_values(t: Seq<char>)
    ensures
        value_of(t) matches Some(v) ==> 0 <= v <= 2,
{
}

/// A setting that is found has the name that was asked for.
pub proof fn law_found_by_name(name: Seq<char>)
    ensures
        named(known(), name) matches Some(s) ==> s.name == name,
        named(known(), "night-vision"@) == Some(
            SettingModel { name: "night-vision"@, attribute: "IrLedMode"@ },
        ),
{
    reveal_with_fuel(named, 2);
}

} // verus!
