//! Names and settings of a session: terminals, connectors, sockets and environment variables.
use crate::text::{
    begins_with, concat2, decimal, number_u32, parse_u32, starts_with, to_decimal, trim, trimmed,
};
use vstd::prelude::*;
use vstd::string::*;

verus! {

/// The terminal that the text names, as in `tty2`.
pub open spec fn terminal_number(text: Seq<char>) -> Option<nat> {
    let name = trimmed(text);
    if begins_with(name, "tty"@) {
        number_u32(name.subrange("tty"@.len() as int, name.len() as int))
    } else {
        None
    }
}

/// Get the current VT (virtual terminal) number out of what the system reports.
/// Returns None if not running on a VT or detection fails.
pub fn current_vt(active: Option<&str>) -> (r: Option<u32>)
    ensures
        match r {
            Some(v) => active is Some && terminal_number(active->0@) == Some(v as nat),
            None => active is None || terminal_number(active->0@) is None,
        },
{
    match active {
        Some(text) => {
            let name = trim(text);
            let n: usize = name.as_str().unicode_len();
            proof {
                reveal_strlit("tty");
                assert("tty"@.len() == 3);
            }
            if starts_with(name.as_str(), "tty") {
                let rest = name.as_str().substring_char(3, n);
                parse_u32(rest)
            } else {
                None
            }
        },
        None => None,
    }
}

/// The suffix for a terminal.
pub open spec fn suffix_of(vt: Option<u32>) -> Seq<char> {
    match vt {
        Some(n) => "-vt"@ + decimal(n as nat),
        None => Seq::<char>::empty(),
    }
}

/// Get a VT-specific suffix for socket names.
/// Returns "-vt{N}" if on a VT, empty string otherwise.
pub fn vt_suffix(vt: Option<u32>) -> (r: String)
    ensures
        r@ == suffix_of(vt),
{
    match vt {
        Some(n) => concat2("-vt", to_decimal(n as u64).as_str()),
        None => String::new(),
    }
}

/// The name of the Wayland socket.
pub fn socket_name(vt: Option<u32>) -> (r: String)
    ensures
        r@ == "wayland-ewm"@ + suffix_of(vt),
{
    concat2("wayland-ewm", vt_suffix(vt).as_str())
}

/// The connector is that of a built-in panel.
pub open spec fn built_in(connector: Seq<char>) -> bool {
    begins_with(connector, "eDP-"@) || begins_with(connector, "LVDS"@) || begins_with(
        connector,
        "DSI-"@,
    )
}

/// Returns true for embedded laptop panel connectors (eDP, LVDS, DSI).
pub fn is_laptop_panel(connector_name: &str) -> (r: bool)
    ensures
        r == built_in(connector_name@),
{
    starts_with(connector_name, "eDP-") || starts_with(connector_name, "LVDS") || starts_with(
        connector_name,
        "DSI-",
    )
}

/// The names of the variables that the session's programs get, each with its value.
pub open spec fn variables(socket: Seq<char>, x_display: Option<Seq<char>>) -> Seq<
    (Seq<char>, Seq<char>),
> {
    let fixed = seq![
        ("WAYLAND_DISPLAY"@, socket),
        ("XDG_CURRENT_DESKTOP"@, "ewm"@),
        ("XDG_SESSION_TYPE"@, "wayland"@),
        ("GTK_IM_MODULE"@, "wayland"@),
        ("QT_IM_MODULE"@, "wayland"@),
    ];
    match x_display {
        Some(d) => fixed.push(("DISPLAY"@, d)),
        None => fixed,
    }
}

pub open spec fn pair_views(s: Seq<(String, String)>) -> Seq<(Seq<char>, Seq<char>)> {
    s.map_values(|p: (String, String)| (p.0@, p.1@))
}

fn push_var(vars: &mut Vec<(String, String)>, name: &str, value: &str)
    ensures
        pair_views(final(vars)@) == pair_views(old(vars)@).push((name@, value@)),
{
    vars.push((name.to_owned(), value.to_owned()));
    assert(pair_views(vars@) =~= pair_views(old(vars)@).push((name@, value@)));
}

/// The environment that the session's programs get. Without an X server there is no `DISPLAY`.
pub fn session_environment(socket: &str, x_display: Option<&str>) -> (r: Vec<(String, String)>)
    ensures
        pair_views(r@) == variables(socket@, crate::module::opt_view(x_display)),
{
    let mut vars: Vec<(String, String)> = Vec::new();
    assert(pair_views(vars@) =~= Seq::<(Seq<char>, Seq<char>)>::empty());
    push_var(&mut vars, "WAYLAND_DISPLAY", socket);
    push_var(&mut vars, "XDG_CURRENT_DESKTOP", "ewm");
    push_var(&mut vars, "XDG_SESSION_TYPE", "wayland");
    push_var(&mut vars, "GTK_IM_MODULE", "wayland");
    push_var(&mut vars, "QT_IM_MODULE", "wayland");
    match x_display {
        Some(d) => {
            push_var(&mut vars, "DISPLAY", d);
        },
        None => {},
    }
    assert(pair_views(vars@) =~= variables(socket@, crate::module::opt_view(x_display)));
    vars
}

/// The names of the variables with blanks between them.
pub open spec fn name_list(vars: Seq<(String, String)>) -> Seq<char>
    decreases vars.len(),
{
    if vars.len() == 0 {
        Seq::empty()
    } else if vars.len() == 1 {
        vars[0].0@
    } else {
        name_list(vars.drop_last()) + " "@ + vars.last().0@
    }
}

/// The names of the variables with blanks between them.
pub fn variable_names(vars: &Vec<(String, String)>) -> (r: String)
    ensures
        r@ == name_list(vars@),
{
    let mut out = String::new();
    let mut i: usize = 0;
    assert(vars@.subrange(0, 0) =~= Seq::<(String, String)>::empty());
    while i < vars.len()
        invariant
            i <= vars@.len(),
            out@ == name_list(vars@.subrange(0, i as int)),
        decreases vars@.len() - i,
    {
        let ghost post = vars@.subrange(0, i + 1);
        assert(post.drop_last() =~= vars@.subrange(0, i as int));
        let ghost before = out@;
        if i > 0 {
            out.append(" ");
        }
        out.append(vars[i].0.as_str());
        assert(i == 0 ==> out@ =~= post[0].0@);
        i = i + 1;
    }
    assert(vars@.subrange(0, i as int) =~= vars@);
    out
}

/// The shell command that hands the variables to the service managers.
pub fn import_command(vars: &Vec<(String, String)>) -> (r: String)
    ensures
        r@ == "hash systemctl 2>/dev/null && systemctl --user import-environment "@ + name_list(
            vars@,
        ) + "; hash dbus-update-activation-environment 2>/dev/null && dbus-update-activation-environment "@
            + name_list(vars@),
{
    let names = variable_names(vars);
    let mut out = concat2(
        "hash systemctl 2>/dev/null && systemctl --user import-environment ",
        names.as_str(),
    );
    out.append(
        "; hash dbus-update-activation-environment 2>/dev/null && dbus-update-activation-environment ",
    );
    out.append(names.as_str());
    out
}

} // verus!
