//! Input device configuration: names of settings, the cascade from device to type to hardware
//! default, and reading the property lists that Emacs sends.
use crate::text::str_eq;
use vstd::prelude::*;
use vstd::string::*;

verus! {

/// Acceleration profile of a pointer device.
#[derive(Clone, Copy, Debug, PartialEq, Eq, Structural)]
pub enum AccelProfile {
    Flat,
    Adaptive,
}

impl AccelProfile {
    /// The Elisp symbol name.
    pub open spec fn symbol(self) -> Seq<char> {
        match self {
            AccelProfile::Flat => "flat"@,
            AccelProfile::Adaptive => "adaptive"@,
        }
    }

    /// The value that a name stands for.
    pub open spec fn named(s: Seq<char>) -> Option<AccelProfile> {
        if s == "flat"@ {
            Some(AccelProfile::Flat)
        } else if s == "adaptive"@ {
            Some(AccelProfile::Adaptive)
        } else {
            None
        }
    }
}

/// Parse an acceleration profile string.
pub fn parse_accel_profile(s: &str) -> (r: Option<AccelProfile>)
    ensures
        r == AccelProfile::named(s@),
{
    if str_eq(s, "flat") {
        Some(AccelProfile::Flat)
    } else if str_eq(s, "adaptive") {
        Some(AccelProfile::Adaptive)
    } else {
        None
    }
}

/// Every accel profile is read back from its own name, and only from that name.
pub proof fn law_accel_profile_names(v: AccelProfile, s: Seq<char>)
    ensures
        AccelProfile::named(v.symbol()) == Some(v),
        AccelProfile::named(s) == Some(v) ==> s == v.symbol(),
{
    reveal_strlit("flat");
    reveal_strlit("adaptive");
    assert("flat"@.len() == 4);
    assert("adaptive"@.len() == 8);
}

/// How a touchpad reports clicks.
#[derive(Clone, Copy, Debug, PartialEq, Eq, Structural)]
pub enum ClickMethod {
    ButtonAreas,
    Clickfinger,
}

impl ClickMethod {
    /// The Elisp symbol name.
    pub open spec fn symbol(self) -> Seq<char> {
        match self {
            ClickMethod::ButtonAreas => "button-areas"@,
            ClickMethod::Clickfinger => "clickfinger"@,
        }
    }

    /// The value that a name stands for.
    pub open spec fn named(s: Seq<char>) -> Option<ClickMethod> {
        if s == "button-areas"@ {
            Some(ClickMethod::ButtonAreas)
        } else if s == "clickfinger"@ {
            Some(ClickMethod::Clickfinger)
        } else {
            None
        }
    }
}

/// Parse a click method string.
pub fn parse_click_method(s: &str) -> (r: Option<ClickMethod>)
    ensures
        r == ClickMethod::named(s@),
{
    if str_eq(s, "button-areas") {
        Some(ClickMethod::ButtonAreas)
    } else if str_eq(s, "clickfinger") {
        Some(ClickMethod::Clickfinger)
    } else {
        None
    }
}

/// Every click method is read back from its own name, and only from that name.
pub proof fn law_click_method_names(v: ClickMethod, s: Seq<char>)
    ensures
        ClickMethod::named(v.symbol()) == Some(v),
        ClickMethod::named(s) == Some(v) ==> s == v.symbol(),
{
    reveal_strlit("button-areas");
    reveal_strlit("clickfinger");
    assert("button-areas"@.len() == 12);
    assert("clickfinger"@.len() == 11);
}

/// How a device scrolls.
#[derive(Clone, Copy, Debug, PartialEq, Eq, Structural)]
pub enum ScrollMethod {
    NoScroll,
    TwoFinger,
    Edge,
    OnButtonDown,
}

impl ScrollMethod {
    /// The Elisp symbol name.
    pub open spec fn symbol(self) -> Seq<char> {
        match self {
            ScrollMethod::NoScroll => "no-scroll"@,
            ScrollMethod::TwoFinger => "two-finger"@,
            ScrollMethod::Edge => "edge"@,
            ScrollMethod::OnButtonDown => "on-button-down"@,
        }
    }

    /// The value that a name stands for.
    pub open spec fn named(s: Seq<char>) -> Option<ScrollMethod> {
        if s == "no-scroll"@ {
            Some(ScrollMethod::NoScroll)
        } else if s == "two-finger"@ {
            Some(ScrollMethod::TwoFinger)
        } else if s == "edge"@ {
            Some(ScrollMethod::Edge)
        } else if s == "on-button-down"@ {
            Some(ScrollMethod::OnButtonDown)
        } else {
            None
        }
    }
}

/// Parse a scroll method string.
pub fn parse_scroll_method(s: &str) -> (r: Option<ScrollMethod>)
    ensures
        r == ScrollMethod::named(s@),
{
    if str_eq(s, "no-scroll") {
        Some(ScrollMethod::NoScroll)
    } else if str_eq(s, "two-finger") {
        Some(ScrollMethod::TwoFinger)
    } else if str_eq(s, "edge") {
        Some(ScrollMethod::Edge)
    } else if str_eq(s, "on-button-down") {
        Some(ScrollMethod::OnButtonDown)
    } else {
        None
    }
}

/// Every scroll method is read back from its own name, and only from that name.
pub proof fn law_scroll_method_names(v: ScrollMethod, s: Seq<char>)
    ensures
        ScrollMethod::named(v.symbol()) == Some(v),
        ScrollMethod::named(s) == Some(v) ==> s == v.symbol(),
{
    reveal_strlit("no-scroll");
    reveal_strlit("two-finger");
    reveal_strlit("edge");
    reveal_strlit("on-button-down");
    assert("no-scroll"@.len() == 9);
    assert("two-finger"@.len() == 10);
    assert("edge"@.len() == 4);
    assert("on-button-down"@.len() == 14);
}

/// Which buttons one, two and three finger taps stand for.
#[derive(Clone, Copy, Debug, PartialEq, Eq, Structural)]
pub enum TapButtonMap {
    LeftRightMiddle,
    LeftMiddleRight,
}

impl TapButtonMap {
    /// The Elisp symbol name.
    pub open spec fn symbol(self) -> Seq<char> {
        match self {
            TapButtonMap::LeftRightMiddle => "left-right-middle"@,
            TapButtonMap::LeftMiddleRight => "left-middle-right"@,
        }
    }

    /// The value that a name stands for.
    pub open spec fn named(s: Seq<char>) -> Option<TapButtonMap> {
        if s == "left-right-middle"@ {
            Some(TapButtonMap::LeftRightMiddle)
        } else if s == "left-middle-right"@ {
            Some(TapButtonMap::LeftMiddleRight)
        } else {
            None
        }
    }
}

/// Parse a tap button map string.
pub fn parse_tap_button_map(s: &str) -> (r: Option<TapButtonMap>)
    ensures
        r == TapButtonMap::named(s@),
{
    if str_eq(s, "left-right-middle") {
        Some(TapButtonMap::LeftRightMiddle)
    } else if str_eq(s, "left-middle-right") {
        Some(TapButtonMap::LeftMiddleRight)
    } else {
        None
    }
}

/// Every tap button map is read back from its own name, and only from that name.
pub proof fn law_tap_button_map_names(v: TapButtonMap, s: Seq<char>)
    ensures
        TapButtonMap::named(v.symbol()) == Some(v),
        TapButtonMap::named(s) == Some(v) ==> s == v.symbol(),
{
    reveal_strlit("left-right-middle");
    reveal_strlit("left-middle-right");
    assert("left-right-middle"@.len() == 17);
    assert("left-middle-right"@.len() == 17);
    assert("left-right-middle"@[5] == 'r' && "left-middle-right"@[5] == 'm');
}

/// Input device type for configuration matching.
#[derive(Clone, Copy, Debug, PartialEq, Eq, Structural)]
pub enum DeviceType {
    Touchpad,
    Mouse,
    Trackball,
    Trackpoint,
    Keyboard,
}

impl DeviceType {
    /// The Elisp symbol name.
    pub open spec fn symbol(self) -> Seq<char> {
        match self {
            DeviceType::Touchpad => "touchpad"@,
            DeviceType::Mouse => "mouse"@,
            DeviceType::Trackball => "trackball"@,
            DeviceType::Trackpoint => "trackpoint"@,
            DeviceType::Keyboard => "keyboard"@,
        }
    }

    /// The value that a name stands for.
    pub open spec fn named(s: Seq<char>) -> Option<DeviceType> {
        if s == "touchpad"@ {
            Some(DeviceType::Touchpad)
        } else if s == "mouse"@ {
            Some(DeviceType::Mouse)
        } else if s == "trackball"@ {
            Some(DeviceType::Trackball)
        } else if s == "trackpoint"@ {
            Some(DeviceType::Trackpoint)
        } else if s == "keyboard"@ {
            Some(DeviceType::Keyboard)
        } else {
            None
        }
    }

    /// Parse from string (Elisp symbol name).
    pub fn parse(s: &str) -> (r: Option<Self>)
        ensures
            r == DeviceType::named(s@),
    {
        if str_eq(s, "touchpad") {
            Some(DeviceType::Touchpad)
        } else if str_eq(s, "mouse") {
            Some(DeviceType::Mouse)
        } else if str_eq(s, "trackball") {
            Some(DeviceType::Trackball)
        } else if str_eq(s, "trackpoint") {
            Some(DeviceType::Trackpoint)
        } else if str_eq(s, "keyboard") {
            Some(DeviceType::Keyboard)
        } else {
            None
        }
    }
}

/// Every device type is read back from its own name, and only from that name.
pub proof fn law_device_type_names(v: DeviceType, s: Seq<char>)
    ensures
        DeviceType::named(v.symbol()) == Some(v),
        DeviceType::named(s) == Some(v) ==> s == v.symbol(),
{
    reveal_strlit("touchpad");
    reveal_strlit("mouse");
    reveal_strlit("trackball");
    reveal_strlit("trackpoint");
    reveal_strlit("keyboard");
    assert("touchpad"@.len() == 8);
    assert("mouse"@.len() == 5);
    assert("trackball"@.len() == 9);
    assert("trackpoint"@.len() == 10);
    assert("keyboard"@.len() == 8);
    assert("touchpad"@[0] == 't' && "keyboard"@[0] == 'k');
}

/// A single input configuration entry — either a type default or device-specific.
///
/// Type defaults have `device: None` and `device_type: Some(...)`.
/// Device-specific overrides have `device: Some("name")` and optional `device_type`.
#[derive(Clone, Debug)]
pub struct InputConfigEntry {
    /// None = type default, Some("device name") = device-specific override
    pub device: Option<String>,
    /// Required for type defaults, optional for device overrides (auto-detected)
    pub device_type: Option<DeviceType>,
    // All possible settings (superset of touchpad + mouse)
    pub natural_scroll: Option<bool>,
    pub tap: Option<bool>,
    pub dwt: Option<bool>,
    /// Bit pattern of a floating point number.
    pub accel_speed: Option<u64>,
    pub accel_profile: Option<AccelProfile>,
    pub click_method: Option<ClickMethod>,
    pub scroll_method: Option<ScrollMethod>,
    pub left_handed: Option<bool>,
    pub middle_emulation: Option<bool>,
    pub tap_button_map: Option<TapButtonMap>,
    // Keyboard-specific settings
    pub repeat_delay: Option<i32>,
    pub repeat_rate: Option<i32>,
    pub xkb_layouts: Option<String>,
    pub xkb_options: Option<String>,
}

/// An entry in which nothing is set.
pub open spec fn empty_entry() -> InputConfigEntry {
    InputConfigEntry {
        device: None,
        device_type: None,
        natural_scroll: None,
        tap: None,
        dwt: None,
        accel_speed: None,
        accel_profile: None,
        click_method: None,
        scroll_method: None,
        left_handed: None,
        middle_emulation: None,
        tap_button_map: None,
        repeat_delay: None,
        repeat_rate: None,
        xkb_layouts: None,
        xkb_options: None,
    }
}

impl Default for InputConfigEntry {
    fn default() -> (r: Self)
        ensures
            r == empty_entry(),
    {
        InputConfigEntry {
            device: None,
            device_type: None,
            natural_scroll: None,
            tap: None,
            dwt: None,
            accel_speed: None,
            accel_profile: None,
            click_method: None,
            scroll_method: None,
            left_handed: None,
            middle_emulation: None,
            tap_button_map: None,
            repeat_delay: None,
            repeat_rate: None,
            xkb_layouts: None,
            xkb_options: None,
        }
    }
}


/// What a device reports about itself.
#[derive(Clone, Copy, Debug, PartialEq, Eq, Structural)]
pub struct DeviceTraits {
    /// Number of fingers that tapping knows; zero if the device cannot tap.
    pub tap_finger_count: u32,
    pub is_trackball: bool,
    pub is_trackpoint: bool,
    /// The device moves a pointer.
    pub is_pointer: bool,
}

/// Detect the type of a device.
///
/// A device that can tap is a touchpad; trackballs and trackpoints say so; any other device
/// that moves a pointer is a mouse.
pub fn detect_device_type(device: &DeviceTraits) -> (r: Option<DeviceType>)
    ensures
        r == if device.tap_finger_count > 0 {
            Some(DeviceType::Touchpad)
        } else if device.is_trackball {
            Some(DeviceType::Trackball)
        } else if device.is_trackpoint {
            Some(DeviceType::Trackpoint)
        } else if device.is_pointer {
            Some(DeviceType::Mouse)
        } else {
            None
        },
{
    if device.tap_finger_count > 0 {
        Some(DeviceType::Touchpad)
    } else if device.is_trackball {
        Some(DeviceType::Trackball)
    } else if device.is_trackpoint {
        Some(DeviceType::Trackpoint)
    } else if device.is_pointer {
        Some(DeviceType::Mouse)
    } else {
        None
    }
}

/// The hardware defaults of a device.
#[derive(Clone, Copy, Debug, PartialEq, Eq, Structural)]
pub struct DeviceDefaults {
    pub natural_scroll: bool,
    pub accel_speed: u64,
    pub left_handed: bool,
    pub middle_emulation: bool,
    pub accel_profile: Option<AccelProfile>,
    pub scroll_method: Option<ScrollMethod>,
    pub tap: bool,
    pub dwt: bool,
    pub click_method: Option<ClickMethod>,
    pub tap_button_map: Option<TapButtonMap>,
}

/// Settings that only touchpads have.
#[derive(Clone, Copy, Debug, PartialEq, Eq, Structural)]
pub struct TouchpadSettings {
    pub tap: bool,
    pub dwt: bool,
    pub click_method: Option<ClickMethod>,
    pub tap_button_map: Option<TapButtonMap>,
}

/// What is written to a device.
#[derive(Clone, Copy, Debug, PartialEq, Eq, Structural)]
pub struct DeviceSettings {
    pub natural_scroll: bool,
    pub accel_speed: u64,
    pub left_handed: bool,
    pub middle_emulation: bool,
    pub accel_profile: Option<AccelProfile>,
    pub scroll_method: Option<ScrollMethod>,
    pub touchpad: Option<TouchpadSettings>,
}

/// The entry is an override for the device called `name`.
pub open spec fn is_for_device(c: InputConfigEntry, name: Seq<char>) -> bool {
    c.device matches Some(d) && d@ == name
}

/// The entry is the default for devices of type `t`.
pub open spec fn is_for_type(c: InputConfigEntry, t: DeviceType) -> bool {
    c.device is None && c.device_type == Some(t)
}

/// The first override for the device called `name`.
pub open spec fn device_entry(configs: Seq<InputConfigEntry>, name: Seq<char>) -> Option<
    InputConfigEntry,
>
    decreases configs.len(),
{
    if configs.len() == 0 {
        None
    } else if is_for_device(configs[0], name) {
        Some(configs[0])
    } else {
        device_entry(configs.subrange(1, configs.len() as int), name)
    }
}

/// The first default for devices of type `t`.
pub open spec fn type_entry(configs: Seq<InputConfigEntry>, t: DeviceType) -> Option<
    InputConfigEntry,
>
    decreases configs.len(),
{
    if configs.len() == 0 {
        None
    } else if is_for_type(configs[0], t) {
        Some(configs[0])
    } else {
        type_entry(configs.subrange(1, configs.len() as int), t)
    }
}

/// Device-specific value, else type default, else hardware default.
pub open spec fn cascade<T>(device: Option<T>, by_type: Option<T>, hardware: T) -> T {
    match device {
        Some(v) => v,
        None => match by_type {
            Some(v) => v,
            None => hardware,
        },
    }
}

/// Device-specific value, else type default, else the hardware default if there is one.
pub open spec fn cascade_opt<T>(
    device: Option<T>,
    by_type: Option<T>,
    hardware: Option<T>,
) -> Option<T> {
    match device {
        Some(v) => Some(v),
        None => match by_type {
            Some(v) => Some(v),
            None => hardware,
        },
    }
}

/// The entry's settings, or no settings where there is no entry.
pub open spec fn settings_of(c: Option<InputConfigEntry>) -> InputConfigEntry {
    match c {
        Some(e) => e,
        None => empty_entry(),
    }
}

/// What `resolve_settings` answers for a device of type `t` called `name`.
pub open spec fn resolved(
    t: DeviceType,
    name: Seq<char>,
    configs: Seq<InputConfigEntry>,
    hw: DeviceDefaults,
) -> DeviceSettings {
    let d = settings_of(device_entry(configs, name));
    let k = settings_of(type_entry(configs, t));
    DeviceSettings {
        natural_scroll: cascade(d.natural_scroll, k.natural_scroll, hw.natural_scroll),
        accel_speed: cascade(d.accel_speed, k.accel_speed, hw.accel_speed),
        left_handed: cascade(d.left_handed, k.left_handed, hw.left_handed),
        middle_emulation: cascade(d.middle_emulation, k.middle_emulation, hw.middle_emulation),
        accel_profile: cascade_opt(d.accel_profile, k.accel_profile, hw.accel_profile),
        scroll_method: cascade_opt(d.scroll_method, k.scroll_method, hw.scroll_method),
        touchpad: if t == DeviceType::Touchpad {
            Some(
                TouchpadSettings {
                    tap: cascade(d.tap, k.tap, hw.tap),
                    dwt: cascade(d.dwt, k.dwt, hw.dwt),
                    click_method: cascade_opt(d.click_method, k.click_method, hw.click_method),
                    tap_button_map: cascade_opt(
                        d.tap_button_map,
                        k.tap_button_map,
                        hw.tap_button_map,
                    ),
                },
            )
        } else {
            None
        },
    }
}

fn find_device_entry<'a>(configs: &'a Vec<InputConfigEntry>, name: &str) -> (r: Option<
    &'a InputConfigEntry,
>)
    ensures
        match r {
            Some(c) => device_entry(configs@, name@) == Some(*c),
            None => device_entry(configs@, name@) is None,
        },
{
    let mut i: usize = 0;
    assert(configs@.subrange(0, configs@.len() as int) =~= configs@);
    while i < configs.len()
        invariant
            i <= configs@.len(),
            device_entry(configs@, name@) == device_entry(
                configs@.subrange(i as int, configs@.len() as int),
                name@,
            ),
        decreases configs@.len() - i,
    {
        let ghost rest = configs@.subrange(i as int, configs@.len() as int);
        assert(rest[0] == configs@[i as int]);
        assert(rest.subrange(1, rest.len() as int) =~= configs@.subrange(
            i as int + 1,
            configs@.len() as int,
        ));
        let hit = match &configs[i].device {
            Some(d) => str_eq(d.as_str(), name),
            None => false,
        };
        if hit {
            return Some(&configs[i]);
        }
        i = i + 1;
    }
    None
}

fn find_type_entry(configs: &Vec<InputConfigEntry>, t: DeviceType) -> (r: Option<&InputConfigEntry>)
    ensures
        match r {
            Some(c) => type_entry(configs@, t) == Some(*c),
            None => type_entry(configs@, t) is None,
        },
{
    let mut i: usize = 0;
    assert(configs@.subrange(0, configs@.len() as int) =~= configs@);
    while i < configs.len()
        invariant
            i <= configs@.len(),
            type_entry(configs@, t) == type_entry(
                configs@.subrange(i as int, configs@.len() as int),
                t,
            ),
        decreases configs@.len() - i,
    {
        let ghost rest = configs@.subrange(i as int, configs@.len() as int);
        assert(rest[0] == configs@[i as int]);
        assert(rest.subrange(1, rest.len() as int) =~= configs@.subrange(
            i as int + 1,
            configs@.len() as int,
        ));
        let of_type = match configs[i].device_type {
            Some(dt) => dt == t,
            None => false,
        };
        if configs[i].device.is_none() && of_type {
            return Some(&configs[i]);
        }
        i = i + 1;
    }
    None
}

fn pick<T: Copy>(device: Option<T>, by_type: Option<T>, hardware: T) -> (r: T)
    ensures
        r == cascade(device, by_type, hardware),
{
    match device {
        Some(v) => v,
        None => match by_type {
            Some(v) => v,
            None => hardware,
        },
    }
}

fn pick_opt<T: Copy>(device: Option<T>, by_type: Option<T>, hardware: Option<T>) -> (r: Option<T>)
    ensures
        r == cascade_opt(device, by_type, hardware),
{
    match device {
        Some(v) => Some(v),
        None => match by_type {
            Some(v) => Some(v),
            None => hardware,
        },
    }
}

/// The settings of a device of type `t` called `name`, using 3-level cascade:
/// device-specific config → type-default config → hardware default.
pub fn resolve_settings(
    t: DeviceType,
    name: &str,
    configs: &Vec<InputConfigEntry>,
    hw: &DeviceDefaults,
) -> (r: DeviceSettings)
    ensures
        r == resolved(t, name@, configs@, *hw),
{
    let none = InputConfigEntry::default();
    let d = match find_device_entry(configs, name) {
        Some(c) => c,
        None => &none,
    };
    let k = match find_type_entry(configs, t) {
        Some(c) => c,
        None => &none,
    };
    DeviceSettings {
        natural_scroll: pick(d.natural_scroll, k.natural_scroll, hw.natural_scroll),
        accel_speed: pick(d.accel_speed, k.accel_speed, hw.accel_speed),
        left_handed: pick(d.left_handed, k.left_handed, hw.left_handed),
        middle_emulation: pick(d.middle_emulation, k.middle_emulation, hw.middle_emulation),
        accel_profile: pick_opt(d.accel_profile, k.accel_profile, hw.accel_profile),
        scroll_method: pick_opt(d.scroll_method, k.scroll_method, hw.scroll_method),
        touchpad: if t == DeviceType::Touchpad {
            Some(
                TouchpadSettings {
                    tap: pick(d.tap, k.tap, hw.tap),
                    dwt: pick(d.dwt, k.dwt, hw.dwt),
                    click_method: pick_opt(d.click_method, k.click_method, hw.click_method),
                    tap_button_map: pick_opt(d.tap_button_map, k.tap_button_map, hw.tap_button_map),
                },
            )
        } else {
            None
        },
    }
}

/// Settings for a device, or none where its type is not known.
pub fn apply_libinput_settings(
    device: &DeviceTraits,
    name: &str,
    configs: &Vec<InputConfigEntry>,
    hw: &DeviceDefaults,
) -> (r: Option<DeviceSettings>)
    ensures
        r == if device.tap_finger_count > 0 {
            Some(resolved(DeviceType::Touchpad, name@, configs@, *hw))
        } else if device.is_trackball {
            Some(resolved(DeviceType::Trackball, name@, configs@, *hw))
        } else if device.is_trackpoint {
            Some(resolved(DeviceType::Trackpoint, name@, configs@, *hw))
        } else if device.is_pointer {
            Some(resolved(DeviceType::Mouse, name@, configs@, *hw))
        } else {
            None
        },
{
    match detect_device_type(device) {
        Some(t) => Some(resolve_settings(t, name, configs, hw)),
        None => None,
    }
}

/// Without configuration every setting keeps its hardware default; touchpad settings are
/// written to touchpads only.
pub proof fn law_no_config_keeps_hardware_defaults(
    t: DeviceType,
    name: Seq<char>,
    hw: DeviceDefaults,
)
    ensures
        resolved(t, name, Seq::empty(), hw).natural_scroll == hw.natural_scroll,
        resolved(t, name, Seq::empty(), hw).accel_speed == hw.accel_speed,
        resolved(t, name, Seq::empty(), hw).left_handed == hw.left_handed,
        resolved(t, name, Seq::empty(), hw).middle_emulation == hw.middle_emulation,
        resolved(t, name, Seq::empty(), hw).accel_profile == hw.accel_profile,
        resolved(t, name, Seq::empty(), hw).scroll_method == hw.scroll_method,
        resolved(t, name, Seq::empty(), hw).touchpad is Some <==> t == DeviceType::Touchpad,
{
}

/// What a device override sets wins over whatever else is configured for the device's type.
pub proof fn law_device_override_wins(
    t: DeviceType,
    name: Seq<char>,
    configs: Seq<InputConfigEntry>,
    hw: DeviceDefaults,
)
    requires
        device_entry(configs, name) is Some,
    ensures
        device_entry(configs, name)->0.natural_scroll matches Some(v) ==> resolved(
            t,
            name,
            configs,
            hw,
        ).natural_scroll == v,
        device_entry(configs, name)->0.accel_speed matches Some(v) ==> resolved(
            t,
            name,
            configs,
            hw,
        ).accel_speed == v,
        device_entry(configs, name)->0.scroll_method is Some ==> resolved(
            t,
            name,
            configs,
            hw,
        ).scroll_method == device_entry(configs, name)->0.scroll_method,
        device_entry(configs, name)->0.tap is Some && t == DeviceType::Touchpad ==> resolved(
            t,
            name,
            configs,
            hw,
        ).touchpad->0.tap == device_entry(configs, name)->0.tap->0,
{
}

} // verus!
