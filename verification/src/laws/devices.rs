//! Settings of input devices.
use crate::input::{
    device_entry, is_for_device, is_for_type, resolved, type_entry, DeviceDefaults, DeviceType,
    InputConfigEntry,
};
use vstd::prelude::*;

verus! {

/// `r` is the value that counts: that of the device's entry, else that of its type's entry, else the
/// hardware's.
pub open spec fn decided<T>(
    device: Option<Option<T>>,
    by_type: Option<Option<T>>,
    hardware: T,
    r: T,
) -> bool {
    &&& device is Some && device->0 is Some ==> r == device->0->0
    &&& (device is None || device->0 is None) && by_type is Some && by_type->0 is Some ==> r
        == by_type->0->0
    &&& (device is None || device->0 is None) && (by_type is None || by_type->0 is None) ==> r
        == hardware
}

/// The entries that count for a device are the first one that names it and the first one for its
/// type that names no device. Each setting on its own comes from the first of them that has it,
/// else from the hardware; touchpads have further settings, decided in the same way.
pub proof fn law_settings_cascade(
    t: DeviceType,
    name: Seq<char>,
    configs: Seq<InputConfigEntry>,
    hw: DeviceDefaults,
)
    ensures
        ({
            let r = resolved(t, name, configs, hw);
            let d = device_entry(configs, name);
            let k = type_entry(configs, t);
            let of_d = d is Some;
            let of_k = k is Some;
            let e = d->0;
            let f = k->0;
            &&& decided(
                if of_d { Some(e.natural_scroll) } else { None },
                if of_k { Some(f.natural_scroll) } else { None },
                hw.natural_scroll,
                r.natural_scroll,
            )
            &&& decided(
                if of_d { Some(e.accel_speed) } else { None },
                if of_k { Some(f.accel_speed) } else { None },
                hw.accel_speed,
                r.accel_speed,
            )
            &&& decided(
                if of_d { Some(e.left_handed) } else { None },
                if of_k { Some(f.left_handed) } else { None },
                hw.left_handed,
                r.left_handed,
            )
            &&& decided(
                if of_d { Some(e.middle_emulation) } else { None },
                if of_k { Some(f.middle_emulation) } else { None },
                hw.middle_emulation,
                r.middle_emulation,
            )
            &&& of_d && e.accel_profile is Some ==> r.accel_profile == e.accel_profile
            &&& (!of_d || e.accel_profile is None) && of_k && f.accel_profile is Some
                ==> r.accel_profile == f.accel_profile
            &&& (!of_d || e.accel_profile is None) && (!of_k || f.accel_profile is None)
                ==> r.accel_profile == hw.accel_profile
            &&& of_d && e.scroll_method is Some ==> r.scroll_method == e.scroll_method
            &&& (!of_d || e.scroll_method is None) && of_k && f.scroll_method is Some
                ==> r.scroll_method == f.scroll_method
            &&& (!of_d || e.scroll_method is None) && (!of_k || f.scroll_method is None)
                ==> r.scroll_method == hw.scroll_method
            &&& r.touchpad is Some <==> t == DeviceType::Touchpad
            &&& r.touchpad is Some ==> {
                let p = r.touchpad->0;
                &&& decided(
                    if of_d { Some(e.tap) } else { None },
                    if of_k { Some(f.tap) } else { None },
                    hw.tap,
                    p.tap,
                )
                &&& decided(
                    if of_d { Some(e.dwt) } else { None },
                    if of_k { Some(f.dwt) } else { None },
                    hw.dwt,
                    p.dwt,
                )
                &&& of_d && e.click_method is Some ==> p.click_method == e.click_method
                &&& (!of_d || e.click_method is None) && of_k && f.click_method is Some
                    ==> p.click_method == f.click_method
                &&& (!of_d || e.click_method is None) && (!of_k || f.click_method is None)
                    ==> p.click_method == hw.click_method
                &&& of_d && e.tap_button_map is Some ==> p.tap_button_map == e.tap_button_map
                &&& (!of_d || e.tap_button_map is None) && of_k && f.tap_button_map is Some
                    ==> p.tap_button_map == f.tap_button_map
                &&& (!of_d || e.tap_button_map is None) && (!of_k || f.tap_button_map is None)
                    ==> p.tap_button_map == hw.tap_button_map
            }
        }),
{
}

/// The entry for a device is the first of the list that names it; there is none only if none does.
pub proof fn law_first_entry_for_a_device(configs: Seq<InputConfigEntry>, name: Seq<char>, i: int)
    ensures
        0 <= i < configs.len() && configs[i].device is Some && configs[i].device->0@ == name && (
        forall|j: int|
            0 <= j < i ==> !((#[trigger] configs[j]).device is Some && configs[j].device->0@
                == name)) ==> device_entry(configs, name) == Some(configs[i]),
        (forall|j: int|
            0 <= j < configs.len() ==> !((#[trigger] configs[j]).device is Some
                && configs[j].device->0@ == name)) ==> device_entry(configs, name) is None,
    decreases configs.len(),
{
    if configs.len() > 0 {
        let rest = configs.subrange(1, configs.len() as int);
        law_first_entry_for_a_device(rest, name, i - 1);
        assert forall|j: int| 0 <= j < rest.len() implies #[trigger] rest[j] == configs[j + 1] by {}
        if i > 0 && i < configs.len() {
            assert(rest[i - 1] == configs[i]);
        }
        assert(is_for_device(configs[0], name) == (configs[0].device is Some
            && configs[0].device->0@ == name));
    }
}

/// The entry for a type is the first of the list that is for that type and names no device; there
/// is none only if none is.
pub proof fn law_first_entry_for_a_type(configs: Seq<InputConfigEntry>, t: DeviceType, i: int)
    ensures
        0 <= i < configs.len() && configs[i].device is None && configs[i].device_type == Some(t) && (
        forall|j: int|
            0 <= j < i ==> !((#[trigger] configs[j]).device is None && configs[j].device_type
                == Some(t))) ==> type_entry(configs, t) == Some(configs[i]),
        (forall|j: int|
            0 <= j < configs.len() ==> !((#[trigger] configs[j]).device is None
                && configs[j].device_type == Some(t))) ==> type_entry(configs, t) is None,
    decreases configs.len(),
{
    if configs.len() > 0 {
        let rest = configs.subrange(1, configs.len() as int);
        law_first_entry_for_a_type(rest, t, i - 1);
        assert forall|j: int| 0 <= j < rest.len() implies #[trigger] rest[j] == configs[j + 1] by {}
        if i > 0 && i < configs.len() {
            assert(rest[i - 1] == configs[i]);
        }
        assert(is_for_type(configs[0], t) == (configs[0].device is None && configs[0].device_type
            == Some(t)));
    }
}

} // verus!
