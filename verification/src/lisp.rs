//! Reading what Emacs passes to the module: flags, property lists and key descriptions.
//!
//! A Lisp value is known here by what the readers ask of it. Emacs writes an explicit false as
//! `:false`, because nil cannot be told from an absent argument, and marks an argument that was
//! not given as `:unset` where nil has a meaning of its own.
use crate::input::{
    empty_entry, parse_accel_profile, parse_click_method, parse_scroll_method,
    parse_tap_button_map, AccelProfile, ClickMethod, DeviceType, InputConfigEntry, ScrollMethod,
    TapButtonMap,
};
use crate::layout::LayoutEntry;
use crate::module::{ModuleCommand, TabInfo};
use crate::text::{concat2, str_eq};
use vstd::prelude::*;
use vstd::string::*;

verus! {

/// A Lisp value, as far as it is looked at.
pub enum LispValue {
    Nil,
    /// The symbol `:false`.
    False,
    /// The symbol `:unset`.
    Unset,
    Text(String),
    Int(i64),
    /// Bit pattern of a floating point number.
    Float(u64),
    /// Anything else, such as `t`.
    Other,
}

impl LispValue {
    /// Not nil.
    pub fn is_not_nil(&self) -> (r: bool)
        ensures
            r == !(self is Nil),
    {
        match self {
            LispValue::Nil => false,
            _ => true,
        }
    }

    /// Neither nil nor `:false`.
    pub open spec fn truthy(&self) -> bool {
        !(self is Nil) && !(self is False)
    }

    pub fn is_true(&self) -> (r: bool)
        ensures
            r == self.truthy(),
    {
        match self {
            LispValue::Nil => false,
            LispValue::False => false,
            _ => true,
        }
    }
}

/// One entry of a declarative layout. Numbers are cut to their width; the primary flag is left
/// for the compositor to compute.
pub fn layout_entry(
    id: i64,
    x: i64,
    y: i64,
    w: i64,
    h: i64,
    focused: &LispValue,
    fullscreen: &LispValue,
) -> (r: LayoutEntry)
    ensures
        r == (LayoutEntry {
            id: id as u64,
            x: x as i32,
            y: y as i32,
            w: w as u32,
            h: h as u32,
            focused: focused.truthy(),
            primary: false,
            fullscreen: fullscreen.truthy(),
        }),
{
    LayoutEntry {
        id: #[verifier::truncate]
        (id as u64),
        x: #[verifier::truncate]
        (x as i32),
        y: #[verifier::truncate]
        (y as i32),
        w: #[verifier::truncate]
        (w as u32),
        h: #[verifier::truncate]
        (h as u32),
        focused: focused.is_true(),
        primary: false,
        fullscreen: fullscreen.is_true(),
    }
}

/// A property list that places a surface.
pub struct SurfacePlist {
    pub id: i64,
    pub x: i64,
    pub y: i64,
    pub w: i64,
    pub h: i64,
    pub focused: LispValue,
    pub fullscreen: LispValue,
}

/// The entry that a property list stands for.
pub open spec fn placed_by(p: SurfacePlist) -> LayoutEntry {
    LayoutEntry {
        id: p.id as u64,
        x: p.x as i32,
        y: p.y as i32,
        w: p.w as u32,
        h: p.h as u32,
        focused: p.focused.truthy(),
        primary: false,
        fullscreen: p.fullscreen.truthy(),
    }
}

/// `t` is the tab that a name and a flag stand for. A tab without a name has an empty one.
pub open spec fn is_tab_of(t: TabInfo, tab: (Option<String>, LispValue)) -> bool {
    &&& t.active == tab.1.truthy()
    &&& match tab.0 {
        Some(name) => t.name == name,
        None => t.name@ == Seq::<char>::empty(),
    }
}

/// Set declarative layout for an output.
pub fn output_layout_module(
    output: String,
    surfaces: &Vec<SurfacePlist>,
    tabs: &Vec<(Option<String>, LispValue)>,
) -> (r: ModuleCommand)
    ensures
        r matches ModuleCommand::OutputLayout { output: o, surfaces: s, tabs: t } && {
            &&& o == output
            &&& s@.len() == surfaces@.len()
            &&& forall|i: int| 0 <= i < s@.len() ==> #[trigger] s@[i] == placed_by(surfaces@[i])
            &&& t@.len() == tabs@.len()
            &&& forall|i: int| 0 <= i < t@.len() ==> is_tab_of(#[trigger] t@[i], tabs@[i])
        },
{
    let mut entries: Vec<LayoutEntry> = Vec::new();
    let mut i: usize = 0;
    while i < surfaces.len()
        invariant
            i <= surfaces@.len(),
            entries@.len() == i,
            forall|j: int| 0 <= j < i ==> #[trigger] entries@[j] == placed_by(surfaces@[j]),
        decreases surfaces@.len() - i,
    {
        let p = &surfaces[i];
        entries.push(layout_entry(p.id, p.x, p.y, p.w, p.h, &p.focused, &p.fullscreen));
        i = i + 1;
    }
    let mut parsed: Vec<TabInfo> = Vec::new();
    let mut k: usize = 0;
    while k < tabs.len()
        invariant
            k <= tabs@.len(),
            parsed@.len() == k,
            forall|j: int| 0 <= j < k ==> is_tab_of(#[trigger] parsed@[j], tabs@[j]),
        decreases tabs@.len() - k,
    {
        let name = match &tabs[k].0 {
            Some(n) => n.clone(),
            None => String::new(),
        };
        let tab = TabInfo { name, active: tabs[k].1.is_true() };
        assert(is_tab_of(tab, tabs@[k as int]));
        parsed.push(tab);
        k = k + 1;
    }
    ModuleCommand::OutputLayout { output, surfaces: entries, tabs: parsed }
}

/// An installed application.
pub struct InstalledApp {
    pub should_show: bool,
    pub name: String,
    pub commandline: Option<String>,
}

/// The applications that are shown and can be run, with their commands.
pub open spec fn runnable(apps: Seq<InstalledApp>) -> Seq<(String, String)>
    decreases apps.len(),
{
    if apps.len() == 0 {
        Seq::empty()
    } else {
        let head = runnable(apps.drop_last());
        let app = apps.last();
        if app.should_show && app.commandline is Some {
            head.push((app.name, app.commandline->0))
        } else {
            head
        }
    }
}

/// List installed XDG desktop applications: name and command line of those that have a command.
pub fn list_xdg_apps(apps: &Vec<InstalledApp>) -> (r: Vec<(String, String)>)
    ensures
        r@ == runnable(apps@),
{
    let mut list: Vec<(String, String)> = Vec::new();
    let mut i: usize = 0;
    while i < apps.len()
        invariant
            i <= apps@.len(),
            list@ == runnable(apps@.take(i as int)),
        decreases apps@.len() - i,
    {
        assert(apps@.take(i + 1).drop_last() =~= apps@.take(i as int));
        let app = &apps[i];
        if app.should_show {
            match &app.commandline {
                Some(c) => {
                    list.push((app.name.clone(), c.clone()));
                },
                None => {},
            }
        }
        i = i + 1;
    }
    assert(apps@.take(i as int) =~= apps@);
    list
}

/// What an `enabled` argument says: nil is off, `:unset` says nothing, anything else is on.
pub fn enabled_argument(v: &LispValue) -> (r: Option<bool>)
    ensures
        r == match *v {
            LispValue::Nil => Some(false),
            LispValue::Unset => None,
            _ => Some(true),
        },
{
    match v {
        LispValue::Nil => Some(false),
        LispValue::Unset => None,
        _ => Some(true),
    }
}

fn narrow(v: Option<i64>) -> (r: Option<i32>)
    ensures
        r == match v {
            Some(n) => Some(n as i32),
            None => None::<i32>,
        },
{
    match v {
        Some(n) => Some(
            #[verifier::truncate]
            (n as i32),
        ),
        None => None,
    }
}

/// An optional number cut to 32 bits.
pub open spec fn narrowed(v: Option<i64>) -> Option<i32> {
    match v {
        Some(n) => Some(n as i32),
        None => None::<i32>,
    }
}

/// Configure output (module mode).
pub fn configure_output_module(
    name: String,
    x: Option<i64>,
    y: Option<i64>,
    width: Option<i64>,
    height: Option<i64>,
    refresh: Option<i64>,
    scale_120: Option<u32>,
    transform: Option<i64>,
    enabled: &LispValue,
) -> (r: ModuleCommand)
    ensures
        r == (ModuleCommand::ConfigureOutput {
            name,
            x: narrowed(x),
            y: narrowed(y),
            width: narrowed(width),
            height: narrowed(height),
            refresh: narrowed(refresh),
            scale_120,
            transform: narrowed(transform),
            enabled: match *enabled {
                LispValue::Nil => Some(false),
                LispValue::Unset => None,
                _ => Some(true),
            },
        }),
{
    ModuleCommand::ConfigureOutput {
        name,
        x: narrow(x),
        y: narrow(y),
        width: narrow(width),
        height: narrow(height),
        refresh: narrow(refresh),
        scale_120,
        transform: narrow(transform),
        enabled: enabled_argument(enabled),
    }
}

/// Configure native idle timeout (module mode). A timeout that is not positive disables it; the
/// action is to blank the monitors where none is given.
pub fn configure_idle_module(timeout: Option<i64>, action: Option<String>) -> (r: ModuleCommand)
    ensures
        r is ConfigureIdle,
        r->timeout_secs == match timeout {
            Some(t) => if t > 0 {
                Some(t as u64)
            } else {
                None::<u64>
            },
            None => None::<u64>,
        },
        match action {
            Some(a) => r->action == a,
            None => r->action@ == "blank"@,
        },
{
    let timeout_secs: Option<u64> = match timeout {
        Some(t) => if t > 0 {
            Some(t as u64)
        } else {
            None
        },
        None => None,
    };
    let action = match action {
        Some(a) => a,
        None => "blank".to_owned(),
    };
    ModuleCommand::ConfigureIdle { timeout_secs, action }
}

/// Why a property list of input settings was refused.
#[derive(Debug)]
pub enum InputConfigError {
    /// A value is not of the type that its key takes.
    WrongType,
    /// A value is not one of the names that its key takes.
    InvalidValue { message: String },
    /// The key is not known.
    UnknownKey { message: String },
}

/// The text before the offending value in the message for a key that takes names.
pub open spec fn complaint_head(key: Seq<char>) -> Seq<char> {
    if key == ":type"@ {
        "Invalid :type \""@
    } else if key == ":accel-profile"@ {
        "Invalid :accel-profile \""@
    } else if key == ":click-method"@ {
        "Invalid :click-method \""@
    } else if key == ":scroll-method"@ {
        "Invalid :scroll-method \""@
    } else {
        "Invalid :tap-button-map \""@
    }
}

/// The text after it.
pub open spec fn complaint_tail(key: Seq<char>) -> Seq<char> {
    if key == ":type"@ {
        "\", expected: touchpad, mouse, trackball, trackpoint, keyboard"@
    } else if key == ":accel-profile"@ {
        "\", expected: flat, adaptive"@
    } else if key == ":click-method"@ {
        "\", expected: button-areas, clickfinger"@
    } else if key == ":scroll-method"@ {
        "\", expected: no-scroll, two-finger, edge, on-button-down"@
    } else {
        "\", expected: left-right-middle, left-middle-right"@
    }
}

/// The error that the pair (`key`, `val`) gives.
pub open spec fn complains(err: InputConfigError, key: Seq<char>, val: LispValue) -> bool {
    if !known_key(key) {
        err matches InputConfigError::UnknownKey { message } && message@
            == "Unknown input config key "@ + key
    } else {
        match val {
            LispValue::Text(s) => if takes_name(key) {
                err matches InputConfigError::InvalidValue { message } && message@
                    == complaint_head(key) + s@ + complaint_tail(key)
            } else {
                err is WrongType
            },
            _ => err is WrongType,
        }
    }
}

/// Keys whose value is one of a few names.
pub open spec fn takes_name(key: Seq<char>) -> bool {
    ||| key == ":type"@
    ||| key == ":accel-profile"@
    ||| key == ":click-method"@
    ||| key == ":scroll-method"@
    ||| key == ":tap-button-map"@
}

/// Keys that input settings may have.
pub open spec fn known_key(key: Seq<char>) -> bool {
    ||| takes_name(key)
    ||| key == ":device"@
    ||| key == ":xkb-layouts"@
    ||| key == ":xkb-options"@
    ||| key == ":natural-scroll"@
    ||| key == ":tap"@
    ||| key == ":dwt"@
    ||| key == ":left-handed"@
    ||| key == ":middle-emulation"@
    ||| key == ":accel-speed"@
    ||| key == ":repeat-delay"@
    ||| key == ":repeat-rate"@
}

/// The entry after the pair (`key`, `val`) was read; `None` if the pair is refused. A nil value
/// leaves every setting but the flags as it was.
pub open spec fn with_setting(e: InputConfigEntry, key: Seq<char>, val: LispValue) -> Option<
    InputConfigEntry,
> {
    if key == ":device"@ {
        match val {
            LispValue::Nil => Some(e),
            LispValue::Text(s) => Some(InputConfigEntry { device: Some(s), ..e }),
            _ => None,
        }
    } else if key == ":type"@ {
        match val {
            LispValue::Nil => Some(e),
            LispValue::Text(s) => match DeviceType::named(s@) {
                Some(t) => Some(InputConfigEntry { device_type: Some(t), ..e }),
                None => None,
            },
            _ => None,
        }
    } else if key == ":natural-scroll"@ {
        Some(InputConfigEntry { natural_scroll: Some(!(val is Nil)), ..e })
    } else if key == ":tap"@ {
        Some(InputConfigEntry { tap: Some(!(val is Nil)), ..e })
    } else if key == ":dwt"@ {
        Some(InputConfigEntry { dwt: Some(!(val is Nil)), ..e })
    } else if key == ":left-handed"@ {
        Some(InputConfigEntry { left_handed: Some(!(val is Nil)), ..e })
    } else if key == ":middle-emulation"@ {
        Some(InputConfigEntry { middle_emulation: Some(!(val is Nil)), ..e })
    } else if key == ":accel-speed"@ {
        match val {
            LispValue::Nil => Some(e),
            LispValue::Float(b) => Some(InputConfigEntry { accel_speed: Some(b), ..e }),
            _ => None,
        }
    } else if key == ":accel-profile"@ {
        match val {
            LispValue::Nil => Some(e),
            LispValue::Text(s) => match AccelProfile::named(s@) {
                Some(v) => Some(InputConfigEntry { accel_profile: Some(v), ..e }),
                None => None,
            },
            _ => None,
        }
    } else if key == ":click-method"@ {
        match val {
            LispValue::Nil => Some(e),
            LispValue::Text(s) => match ClickMethod::named(s@) {
                Some(v) => Some(InputConfigEntry { click_method: Some(v), ..e }),
                None => None,
            },
            _ => None,
        }
    } else if key == ":scroll-method"@ {
        match val {
            LispValue::Nil => Some(e),
            LispValue::Text(s) => match ScrollMethod::named(s@) {
                Some(v) => Some(InputConfigEntry { scroll_method: Some(v), ..e }),
                None => None,
            },
            _ => None,
        }
    } else if key == ":tap-button-map"@ {
        match val {
            LispValue::Nil => Some(e),
            LispValue::Text(s) => match TapButtonMap::named(s@) {
                Some(v) => Some(InputConfigEntry { tap_button_map: Some(v), ..e }),
                None => None,
            },
            _ => None,
        }
    } else if key == ":repeat-delay"@ {
        match val {
            LispValue::Nil => Some(e),
            LispValue::Int(n) => Some(InputConfigEntry { repeat_delay: Some(n as i32), ..e }),
            _ => None,
        }
    } else if key == ":repeat-rate"@ {
        match val {
            LispValue::Nil => Some(e),
            LispValue::Int(n) => Some(InputConfigEntry { repeat_rate: Some(n as i32), ..e }),
            _ => None,
        }
    } else if key == ":xkb-layouts"@ {
        match val {
            LispValue::Nil => Some(e),
            LispValue::Text(s) => Some(InputConfigEntry { xkb_layouts: Some(s), ..e }),
            _ => None,
        }
    } else if key == ":xkb-options"@ {
        match val {
            LispValue::Nil => Some(e),
            LispValue::Text(s) => Some(InputConfigEntry { xkb_options: Some(s), ..e }),
            _ => None,
        }
    } else {
        None
    }
}

/// The entry that a property list describes, its pairs read in order; `None` if one is refused.
pub open spec fn entry_of(plist: Seq<(String, LispValue)>) -> Option<InputConfigEntry>
    decreases plist.len(),
{
    if plist.len() == 0 {
        Some(empty_entry())
    } else {
        match entry_of(plist.drop_last()) {
            Some(e) => with_setting(e, plist.last().0@, plist.last().1),
            None => None,
        }
    }
}

fn invalid(head: &str, s: &String, tail: &str) -> (r: InputConfigError)
    ensures
        r matches InputConfigError::InvalidValue { message } && message@ == head@ + s@ + tail@,
{
    let mut message = concat2(head, s.as_str());
    message.append(tail);
    InputConfigError::InvalidValue { message }
}

/// The text of a value; `Ok(None)` for nil.
fn text_value(val: &LispValue) -> (r: Result<Option<String>, InputConfigError>)
    ensures
        match *val {
            LispValue::Nil => r == Ok::<Option<String>, InputConfigError>(None),
            LispValue::Text(s) => r == Ok::<Option<String>, InputConfigError>(Some(s)),
            _ => r matches Err(e) && e is WrongType,
        },
{
    match val {
        LispValue::Nil => Ok(None),
        LispValue::Text(s) => Ok(Some(s.clone())),
        _ => Err(InputConfigError::WrongType),
    }
}

/// Reads one pair of a property list into `entry`.
fn read_setting(entry: &mut InputConfigEntry, key: &str, val: &LispValue) -> (r: Result<
    (),
    InputConfigError,
>)
    ensures
        match r {
            Ok(_) => with_setting(*old(entry), key@, *val) == Some(*final(entry)),
            Err(e) => with_setting(*old(entry), key@, *val) is None && complains(e, key@, *val),
        },
{
    if str_eq(key, ":device") {
        match text_value(val) {
            Ok(Some(s)) => {
                entry.device = Some(s);
            },
            Ok(None) => {},
            Err(e) => {
                return Err(e);
            },
        }
    } else if str_eq(key, ":type") {
        match text_value(val) {
            Ok(Some(s)) => match DeviceType::parse(s.as_str()) {
                Some(t) => {
                    entry.device_type = Some(t);
                },
                None => {
                    return Err(
                        invalid(
                            "Invalid :type \"",
                            &s,
                            "\", expected: touchpad, mouse, trackball, trackpoint, keyboard",
                        ),
                    );
                },
            },
            Ok(None) => {},
            Err(e) => {
                return Err(e);
            },
        }
    } else if str_eq(key, ":natural-scroll") {
        entry.natural_scroll = Some(val.is_not_nil());
    } else if str_eq(key, ":tap") {
        entry.tap = Some(val.is_not_nil());
    } else if str_eq(key, ":dwt") {
        entry.dwt = Some(val.is_not_nil());
    } else if str_eq(key, ":left-handed") {
        entry.left_handed = Some(val.is_not_nil());
    } else if str_eq(key, ":middle-emulation") {
        entry.middle_emulation = Some(val.is_not_nil());
    } else if str_eq(key, ":accel-speed") {
        proof {
            reveal_strlit(":accel-speed");
            reveal_strlit(":accel-profile");
            reveal_strlit(":click-method");
            reveal_strlit(":scroll-method");
            reveal_strlit(":tap-button-map");
            assert(":accel-speed"@.len() == 12);
            assert(!takes_name(":accel-speed"@));
        }
        match val {
            LispValue::Nil => {},
            LispValue::Float(b) => {
                entry.accel_speed = Some(*b);
            },
            _ => {
                return Err(InputConfigError::WrongType);
            },
        }
    } else {
        return read_named_setting(entry, key, val);
    }
    Ok(())
}

/// Keys that `read_named_setting` is for: all that come after `:accel-speed`.
spec fn late_key(key: Seq<char>) -> bool {
    &&& key != ":device"@
    &&& key != ":type"@
    &&& key != ":natural-scroll"@
    &&& key != ":tap"@
    &&& key != ":dwt"@
    &&& key != ":left-handed"@
    &&& key != ":middle-emulation"@
    &&& key != ":accel-speed"@
}

fn read_named_setting(entry: &mut InputConfigEntry, key: &str, val: &LispValue) -> (r: Result<
    (),
    InputConfigError,
>)
    requires
        late_key(key@),
    ensures
        match r {
            Ok(_) => with_setting(*old(entry), key@, *val) == Some(*final(entry)),
            Err(e) => with_setting(*old(entry), key@, *val) is None && complains(e, key@, *val),
        },
{
    if str_eq(key, ":accel-profile") {
        match text_value(val) {
            Ok(Some(s)) => match parse_accel_profile(s.as_str()) {
                Some(v) => {
                    entry.accel_profile = Some(v);
                },
                None => {
                    return Err(
                        invalid("Invalid :accel-profile \"", &s, "\", expected: flat, adaptive"),
                    );
                },
            },
            Ok(None) => {},
            Err(e) => {
                return Err(e);
            },
        }
    } else if str_eq(key, ":click-method") {
        match text_value(val) {
            Ok(Some(s)) => match parse_click_method(s.as_str()) {
                Some(v) => {
                    entry.click_method = Some(v);
                },
                None => {
                    return Err(
                        invalid(
                            "Invalid :click-method \"",
                            &s,
                            "\", expected: button-areas, clickfinger",
                        ),
                    );
                },
            },
            Ok(None) => {},
            Err(e) => {
                return Err(e);
            },
        }
    } else if str_eq(key, ":scroll-method") {
        match text_value(val) {
            Ok(Some(s)) => match parse_scroll_method(s.as_str()) {
                Some(v) => {
                    entry.scroll_method = Some(v);
                },
                None => {
                    return Err(
                        invalid(
                            "Invalid :scroll-method \"",
                            &s,
                            "\", expected: no-scroll, two-finger, edge, on-button-down",
                        ),
                    );
                },
            },
            Ok(None) => {},
            Err(e) => {
                return Err(e);
            },
        }
    } else if str_eq(key, ":tap-button-map") {
        match text_value(val) {
            Ok(Some(s)) => match parse_tap_button_map(s.as_str()) {
                Some(v) => {
                    entry.tap_button_map = Some(v);
                },
                None => {
                    return Err(
                        invalid(
                            "Invalid :tap-button-map \"",
                            &s,
                            "\", expected: left-right-middle, left-middle-right",
                        ),
                    );
                },
            },
            Ok(None) => {},
            Err(e) => {
                return Err(e);
            },
        }
    } else if str_eq(key, ":repeat-delay") {
        match val {
            LispValue::Nil => {},
            LispValue::Int(n) => {
                entry.repeat_delay = Some(
                    #[verifier::truncate]
                    (*n as i32),
                );
            },
            _ => {
                return Err(InputConfigError::WrongType);
            },
        }
    } else if str_eq(key, ":repeat-rate") {
        match val {
            LispValue::Nil => {},
            LispValue::Int(n) => {
                entry.repeat_rate = Some(
                    #[verifier::truncate]
                    (*n as i32),
                );
            },
            _ => {
                return Err(InputConfigError::WrongType);
            },
        }
    } else if str_eq(key, ":xkb-layouts") {
        match text_value(val) {
            Ok(Some(s)) => {
                entry.xkb_layouts = Some(s);
            },
            Ok(None) => {},
            Err(e) => {
                return Err(e);
            },
        }
    } else if str_eq(key, ":xkb-options") {
        match text_value(val) {
            Ok(Some(s)) => {
                entry.xkb_options = Some(s);
            },
            Ok(None) => {},
            Err(e) => {
                return Err(e);
            },
        }
    } else {
        return Err(
            InputConfigError::UnknownKey { message: concat2("Unknown input config key ", key) },
        );
    }
    Ok(())
}


/// Reads the property list of one device or device type.
pub fn read_input_config(plist: &Vec<(String, LispValue)>) -> (r: Result<
    InputConfigEntry,
    InputConfigError,
>)
    ensures
        match r {
            Ok(e) => entry_of(plist@) == Some(e),
            Err(err) => exists|k: int|
                0 <= k < plist@.len() && entry_of(plist@.subrange(0, k)) is Some && #[trigger]
                    entry_of(plist@.subrange(0, k + 1)) is None && complains(
                    err,
                    plist@[k].0@,
                    plist@[k].1,
                ),
        },
{
    let mut entry = InputConfigEntry::default();
    let mut i: usize = 0;
    assert(plist@.subrange(0, 0) =~= Seq::<(String, LispValue)>::empty());
    while i < plist.len()
        invariant
            i <= plist@.len(),
            entry_of(plist@.subrange(0, i as int)) == Some(entry),
        decreases plist@.len() - i,
    {
        let ghost before = entry;
        assert(plist@.subrange(0, i as int + 1).drop_last() =~= plist@.subrange(0, i as int));
        assert(plist@.subrange(0, i as int + 1).last() == plist@[i as int]);
        match read_setting(&mut entry, plist[i].0.as_str(), &plist[i].1) {
            Ok(_) => {},
            Err(e) => {
                assert(entry_of(plist@.subrange(0, i as int + 1)) is None);
                return Err(e);
            },
        }
        i = i + 1;
    }
    assert(plist@.subrange(0, i as int) =~= plist@);
    Ok(entry)
}

/// Configure input devices (module mode): one property list per entry. The first list that is
/// refused ends the reading, and nothing is configured.
pub fn configure_input_module(configs: &Vec<Vec<(String, LispValue)>>) -> (r: Result<
    ModuleCommand,
    InputConfigError,
>)
    ensures
        match r {
            Ok(cmd) => cmd matches ModuleCommand::ConfigureInput { configs: entries }
                && entries@.len() == configs@.len() && forall|i: int|
                0 <= i < configs@.len() ==> entry_of((#[trigger] configs@[i])@) == Some(
                    entries@[i],
                ),
            Err(err) => exists|i: int|
                0 <= i < configs@.len() && entry_of((#[trigger] configs@[i])@) is None && (forall|
                    j: int,
                |
                    0 <= j < i ==> entry_of((#[trigger] configs@[j])@) is Some) && exists|k: int|
                    0 <= k < configs@[i]@.len() && entry_of(configs@[i]@.subrange(0, k)) is Some
                        && #[trigger] entry_of(configs@[i]@.subrange(0, k + 1)) is None
                        && complains(err, configs@[i]@[k].0@, configs@[i]@[k].1),
        },
{
    let mut entries: Vec<InputConfigEntry> = Vec::new();
    let mut i: usize = 0;
    while i < configs.len()
        invariant
            i <= configs@.len(),
            entries@.len() == i,
            forall|j: int|
                0 <= j < i ==> entry_of((#[trigger] configs@[j])@) == Some(entries@[j]),
        decreases configs@.len() - i,
    {
        match read_input_config(&configs[i]) {
            Ok(e) => {
                entries.push(e);
            },
            Err(err) => {
                proof {
                    let p = configs@[i as int]@;
                    let k = choose|k: int|
                        0 <= k < p.len() && entry_of(p.subrange(0, k)) is Some && #[trigger]
                            entry_of(p.subrange(0, k + 1)) is None && complains(
                            err,
                            p[k].0@,
                            p[k].1,
                        );
                    lemma_refused_prefix(p, k + 1);
                }
                return Err(err);
            },
        }
        i = i + 1;
    }
    Ok(ModuleCommand::ConfigureInput { configs: entries })
}

/// A list whose beginning is refused is refused.
proof fn lemma_refused_prefix(plist: Seq<(String, LispValue)>, k: int)
    requires
        0 <= k <= plist.len(),
        entry_of(plist.subrange(0, k)) is None,
    ensures
        entry_of(plist) is None,
    decreases plist.len() - k,
{
    if k == plist.len() {
        assert(plist.subrange(0, k) =~= plist);
    } else {
        assert(plist.subrange(0, k + 1).drop_last() =~= plist.subrange(0, k));
        lemma_refused_prefix(plist, k + 1);
    }
}

/// A later value for the same key wins: what an earlier pair set under that key is as if it had
/// not been there. A nil value sets nothing, so it is left out.
pub proof fn law_later_setting_wins(
    e: InputConfigEntry,
    key: Seq<char>,
    first: LispValue,
    second: LispValue,
)
    requires
        with_setting(e, key, first) is Some,
        !(second is Nil),
    ensures
        with_setting(with_setting(e, key, first)->0, key, second) == with_setting(e, key, second),
{
}

} // verus!
