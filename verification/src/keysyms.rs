//! From what Emacs calls a key to the keys that are intercepted.
//!
//! Keysyms are looked up in the tables of the keyboard library. Whoever calls a function here hands
//! it the lookup; which names are looked up, in which order, and what comes of the answers is
//! decided here.
use crate::keys::InterceptedKey;
use crate::lisp::LispValue;
use crate::module::InterceptedKeys;
use crate::text::{concat2, replace_char, replaced, str_eq};
use vstd::prelude::*;
use vstd::string::*;

verus! {

/// Emacs key names that don't round-trip through simple transformations.
/// Emacs lowercases and replaces underscores with hyphens, but also compounds
/// words (e.g., "ISO_Left_Tab" becomes "iso-lefttab"), losing word boundaries.
pub open spec fn compound_name(name: Seq<char>) -> Option<Seq<char>> {
    if name == "iso-lefttab"@ {
        Some("ISO_Left_Tab"@)
    } else if name == "iso-move-line-up"@ {
        Some("ISO_Move_Line_Up"@)
    } else if name == "iso-move-line-down"@ {
        Some("ISO_Move_Line_Down"@)
    } else if name == "iso-partial-line-up"@ {
        Some("ISO_Partial_Line_Up"@)
    } else if name == "iso-partial-line-down"@ {
        Some("ISO_Partial_Line_Down"@)
    } else if name == "iso-partial-space-left"@ {
        Some("ISO_Partial_Space_Left"@)
    } else if name == "iso-partial-space-right"@ {
        Some("ISO_Partial_Space_Right"@)
    } else if name == "iso-set-margin-left"@ {
        Some("ISO_Set_Margin_Left"@)
    } else if name == "iso-set-margin-right"@ {
        Some("ISO_Set_Margin_Right"@)
    } else if name == "iso-release-margin-left"@ {
        Some("ISO_Release_Margin_Left"@)
    } else if name == "iso-release-margin-right"@ {
        Some("ISO_Release_Margin_Right"@)
    } else if name == "iso-release-both-margins"@ {
        Some("ISO_Release_Both_Margins"@)
    } else if name == "iso-fast-cursor-left"@ {
        Some("ISO_Fast_Cursor_Left"@)
    } else if name == "iso-fast-cursor-right"@ {
        Some("ISO_Fast_Cursor_Right"@)
    } else if name == "iso-fast-cursor-up"@ {
        Some("ISO_Fast_Cursor_Up"@)
    } else if name == "iso-fast-cursor-down"@ {
        Some("ISO_Fast_Cursor_Down"@)
    } else if name == "iso-continuous-underline"@ {
        Some("ISO_Continuous_Underline"@)
    } else if name == "iso-discontinuous-underline"@ {
        Some("ISO_Discontinuous_Underline"@)
    } else if name == "iso-emphasize"@ {
        Some("ISO_Emphasize"@)
    } else if name == "iso-center-object"@ {
        Some("ISO_Center_Object"@)
    } else if name == "iso-enter"@ {
        Some("ISO_Enter"@)
    } else {
        None
    }
}

fn compound_key_name(name: &str) -> (r: Option<&'static str>)
    ensures
        match r {
            Some(s) => compound_name(name@) == Some(s@),
            None => compound_name(name@) is None,
        },
{
    if str_eq(name, "iso-lefttab") {
        Some("ISO_Left_Tab")
    } else if str_eq(name, "iso-move-line-up") {
        Some("ISO_Move_Line_Up")
    } else if str_eq(name, "iso-move-line-down") {
        Some("ISO_Move_Line_Down")
    } else if str_eq(name, "iso-partial-line-up") {
        Some("ISO_Partial_Line_Up")
    } else if str_eq(name, "iso-partial-line-down") {
        Some("ISO_Partial_Line_Down")
    } else if str_eq(name, "iso-partial-space-left") {
        Some("ISO_Partial_Space_Left")
    } else if str_eq(name, "iso-partial-space-right") {
        Some("ISO_Partial_Space_Right")
    } else if str_eq(name, "iso-set-margin-left") {
        Some("ISO_Set_Margin_Left")
    } else if str_eq(name, "iso-set-margin-right") {
        Some("ISO_Set_Margin_Right")
    } else if str_eq(name, "iso-release-margin-left") {
        Some("ISO_Release_Margin_Left")
    } else if str_eq(name, "iso-release-margin-right") {
        Some("ISO_Release_Margin_Right")
    } else if str_eq(name, "iso-release-both-margins") {
        Some("ISO_Release_Both_Margins")
    } else if str_eq(name, "iso-fast-cursor-left") {
        Some("ISO_Fast_Cursor_Left")
    } else if str_eq(name, "iso-fast-cursor-right") {
        Some("ISO_Fast_Cursor_Right")
    } else if str_eq(name, "iso-fast-cursor-up") {
        Some("ISO_Fast_Cursor_Up")
    } else if str_eq(name, "iso-fast-cursor-down") {
        Some("ISO_Fast_Cursor_Down")
    } else if str_eq(name, "iso-continuous-underline") {
        Some("ISO_Continuous_Underline")
    } else if str_eq(name, "iso-discontinuous-underline") {
        Some("ISO_Discontinuous_Underline")
    } else if str_eq(name, "iso-emphasize") {
        Some("ISO_Emphasize")
    } else if str_eq(name, "iso-center-object") {
        Some("ISO_Center_Object")
    } else if str_eq(name, "iso-enter") {
        Some("ISO_Enter")
    } else {
        None
    }
}

/// The keysym that stands for none.
pub const NO_SYMBOL: u32 = 0;

/// A name under which a keysym is looked up.
#[derive(Debug)]
pub struct KeyNameGuess {
    pub name: String,
    pub ignore_case: bool,
}

/// The guess is this name, looked up with or without regard to case.
pub open spec fn guesses(g: KeyNameGuess, name: Seq<char>, ignore_case: bool) -> bool {
    g.name@ == name && g.ignore_case == ignore_case
}

/// The names to look up for an Emacs key name, in order.
pub open spec fn guess_names(name: Seq<char>) -> Seq<(Seq<char>, bool)> {
    let first = seq![(name, true)];
    let hyphens = if name.contains('-') {
        first.push((replaced(name, '-', '_'), true))
    } else {
        first
    };
    let media = hyphens.push(("XF86"@ + name, true));
    match compound_name(name) {
        Some(n) => media.push((n, false)),
        None => media,
    }
}

fn has_char(s: &str, c: char) -> (r: bool)
    ensures
        r == s@.contains(c),
{
    let n: usize = s.unicode_len();
    let mut i: usize = 0;
    while i < n
        invariant
            i <= n,
            n == s@.len(),
            forall|k: int| 0 <= k < i ==> s@[k] != c,
        decreases n - i,
    {
        if s.get_char(i) == c {
            return true;
        }
        i = i + 1;
    }
    false
}

/// The names under which the keysym of an Emacs key name is looked up, in order.
pub fn key_name_guesses(name: &str) -> (r: Vec<KeyNameGuess>)
    ensures
        r@.len() == guess_names(name@).len(),
        forall|i: int|
            0 <= i < r@.len() ==> guesses(
                #[trigger] r@[i],
                guess_names(name@)[i].0,
                guess_names(name@)[i].1,
            ),
{
    let mut out: Vec<KeyNameGuess> = Vec::new();
    out.push(KeyNameGuess { name: name.to_owned(), ignore_case: true });
    if has_char(name, '-') {
        out.push(KeyNameGuess { name: replace_char(name, '-', '_'), ignore_case: true });
    }
    out.push(KeyNameGuess { name: concat2("XF86", name), ignore_case: true });
    match compound_key_name(name) {
        Some(n) => {
            out.push(KeyNameGuess { name: n.to_owned(), ignore_case: false });
        },
        None => {},
    }
    out
}

/// `r` is what looking up the names one after the other comes to: the first keysym that is found,
/// else none. Names behind it are not looked up.
pub open spec fn resolves_to<F: Fn(KeyNameGuess) -> u32>(
    look_up: F,
    names: Seq<(Seq<char>, bool)>,
    r: u32,
) -> bool
    decreases names.len(),
{
    if names.len() == 0 {
        r == NO_SYMBOL
    } else {
        exists|g: KeyNameGuess, s: u32| #[trigger]
            call_ensures(look_up, (g,), s) && guesses(g, names[0].0, names[0].1) && if s
                != NO_SYMBOL {
                r == s
            } else {
                resolves_to(look_up, names.skip(1), r)
            }
    }
}

/// The lookup takes every name that is tried for this key name.
pub open spec fn takes_guesses<F: Fn(KeyNameGuess) -> u32>(look_up: F, name: Seq<char>) -> bool {
    forall|g: KeyNameGuess, i: int|
        0 <= i < guess_names(name).len() && #[trigger] guesses(
            g,
            guess_names(name)[i].0,
            guess_names(name)[i].1,
        ) ==> call_requires(look_up, (g,))
}

/// Resolve an Emacs key name to a keysym.
/// Handles: case differences (Emacs "left", key "Left"),
/// hyphens vs underscores (Emacs "kp-add", key "KP_Add"),
/// XF86 prefix (Emacs "AudioMute", key "XF86AudioMute"),
/// and compound-word lossy names via fallback table.
pub fn resolve_keysym_from_name<F: Fn(KeyNameGuess) -> u32>(name: &str, look_up: &F) -> (r: u32)
    requires
        takes_guesses(*look_up, name@),
    ensures
        resolves_to(*look_up, guess_names(name@), r),
{
    let mut rest = key_name_guesses(name);
    let ghost names = guess_names(name@);
    let ghost mut done: int = 0;
    assert(names.skip(0) =~= names);
    while rest.len() > 0
        invariant
            names == guess_names(name@),
            takes_guesses(*look_up, name@),
            0 <= done <= names.len(),
            rest@.len() == names.len() - done,
            forall|i: int|
                0 <= i < rest@.len() ==> guesses(
                    #[trigger] rest@[i],
                    names[done + i].0,
                    names[done + i].1,
                ),
            forall|r: u32|
                resolves_to(*look_up, names.skip(done), r) ==> #[trigger] resolves_to(
                    *look_up,
                    names,
                    r,
                ),
        decreases rest@.len(),
    {
        let ghost before = rest@;
        let guess = rest.remove(0);
        let ghost g = guess;
        assert(guesses(before[0], names[done].0, names[done].1));
        let sym = look_up(guess);
        proof {
            let tail = names.skip(done);
            assert(tail[0] == names[done]);
            assert(tail.skip(1) =~= names.skip(done + 1));
            assert(call_ensures(*look_up, (g,), sym));
            assert(sym != NO_SYMBOL ==> resolves_to(*look_up, tail, sym));
            assert forall|r: u32|
                sym == NO_SYMBOL && resolves_to(*look_up, names.skip(done + 1), r) implies
                #[trigger] resolves_to(*look_up, names, r) by {
                assert(resolves_to(*look_up, tail, r));
            }
        }
        if sym != NO_SYMBOL {
            return sym;
        }
        proof {
            done = done + 1;
            assert forall|i: int| 0 <= i < rest@.len() implies guesses(
                #[trigger] rest@[i],
                names[done + i].0,
                names[done + i].1,
            ) by {
                assert(rest@[i] == before[i + 1]);
            }
        }
    }
    assert(names.skip(done).len() == 0);
    assert(resolves_to(*look_up, names.skip(done), NO_SYMBOL));
    NO_SYMBOL
}

/// What Emacs calls a key.
pub enum KeyName {
    /// A Unicode codepoint.
    Codepoint(i64),
    Name(String),
    /// Something else, which is no key.
    Neither,
}

/// A key that Emacs wants to intercept.
pub struct KeySpec {
    pub key: KeyName,
    pub ctrl: LispValue,
    pub alt: LispValue,
    pub shift: LispValue,
    pub logo: LispValue,
    pub allow_fullscreen: LispValue,
}

/// `r` is the keysym of a key, or none where it has none.
pub open spec fn key_resolves<F: Fn(KeyNameGuess) -> u32, G: Fn(u32) -> u32>(
    key: KeyName,
    look_up: F,
    of_codepoint: G,
    r: u32,
) -> bool {
    match key {
        KeyName::Codepoint(c) => call_ensures(of_codepoint, (c as u32,), r),
        KeyName::Name(name) => resolves_to(look_up, guess_names(name@), r),
        KeyName::Neither => r == NO_SYMBOL,
    }
}

/// The intercepted key that a description with this keysym stands for.
pub open spec fn key_of(spec: KeySpec, keysym: u32) -> InterceptedKey {
    InterceptedKey {
        keysym,
        ctrl: spec.ctrl.truthy(),
        alt: spec.alt.truthy(),
        shift: spec.shift.truthy(),
        logo: spec.logo.truthy(),
        allow_fullscreen: spec.allow_fullscreen.truthy(),
    }
}

/// `keys` holds one key for each description whose key has a keysym, in order; the others are
/// skipped.
pub open spec fn keys_follow<F: Fn(KeyNameGuess) -> u32, G: Fn(u32) -> u32>(
    specs: Seq<KeySpec>,
    look_up: F,
    of_codepoint: G,
    keys: Seq<InterceptedKey>,
) -> bool
    decreases specs.len(),
{
    if specs.len() == 0 {
        keys.len() == 0
    } else {
        exists|sym: u32| #[trigger]
            key_resolves(specs.last().key, look_up, of_codepoint, sym) && if sym == NO_SYMBOL {
                keys_follow(specs.drop_last(), look_up, of_codepoint, keys)
            } else {
                &&& keys.len() > 0
                &&& keys.last() == key_of(specs.last(), sym)
                &&& keys_follow(specs.drop_last(), look_up, of_codepoint, keys.drop_last())
            }
    }
}

/// The lookups take everything that is asked of them for these descriptions.
pub open spec fn takes_keys<F: Fn(KeyNameGuess) -> u32, G: Fn(u32) -> u32>(
    specs: Seq<KeySpec>,
    look_up: F,
    of_codepoint: G,
) -> bool {
    forall|i: int|
        0 <= i < specs.len() ==> match (#[trigger] specs[i]).key {
            KeyName::Codepoint(c) => call_requires(of_codepoint, (c as u32,)),
            KeyName::Name(name) => takes_guesses(look_up, name@),
            KeyName::Neither => true,
        }
}

/// Reads the keys to be intercepted. Keys without a keysym are skipped.
pub fn intercept_keys<F: Fn(KeyNameGuess) -> u32, G: Fn(u32) -> u32>(
    specs: &Vec<KeySpec>,
    look_up: &F,
    of_codepoint: &G,
) -> (r: Vec<InterceptedKey>)
    requires
        takes_keys(specs@, *look_up, *of_codepoint),
    ensures
        keys_follow(specs@, *look_up, *of_codepoint, r@),
{
    let mut keys: Vec<InterceptedKey> = Vec::new();
    let mut i: usize = 0;
    while i < specs.len()
        invariant
            i <= specs@.len(),
            takes_keys(specs@, *look_up, *of_codepoint),
            keys_follow(specs@.take(i as int), *look_up, *of_codepoint, keys@),
        decreases specs@.len() - i,
    {
        let spec = &specs[i];
        let ghost before = keys@;
        assert(specs@[i as int] == *spec);
        let sym: u32 = match &spec.key {
            KeyName::Codepoint(c) => of_codepoint(
                #[verifier::truncate]
                (*c as u32),
            ),
            KeyName::Name(name) => resolve_keysym_from_name(name.as_str(), look_up),
            KeyName::Neither => NO_SYMBOL,
        };
        assert(key_resolves(spec.key, *look_up, *of_codepoint, sym));
        if sym != NO_SYMBOL {
            keys.push(
                InterceptedKey {
                    keysym: sym,
                    ctrl: spec.ctrl.is_true(),
                    alt: spec.alt.is_true(),
                    shift: spec.shift.is_true(),
                    logo: spec.logo.is_true(),
                    allow_fullscreen: spec.allow_fullscreen.is_true(),
                },
            );
            assert(keys@.drop_last() =~= before);
        }
        proof {
            let post = specs@.take(i + 1);
            assert(post.drop_last() =~= specs@.take(i as int));
            assert(post.last() == *spec);
        }
        i = i + 1;
    }
    assert(specs@.take(i as int) =~= specs@);
    keys
}

/// Set intercepted keys. Nothing of an earlier list remains.
pub fn intercept_keys_module<F: Fn(KeyNameGuess) -> u32, G: Fn(u32) -> u32>(
    stored: &mut InterceptedKeys,
    specs: &Vec<KeySpec>,
    look_up: &F,
    of_codepoint: &G,
)
    requires
        takes_keys(specs@, *look_up, *of_codepoint),
    ensures
        keys_follow(specs@, *look_up, *of_codepoint, final(stored).keys@),
{
    stored.set(intercept_keys(specs, look_up, of_codepoint));
}

/// What a lookup table gives for the names: the first keysym that is found, else none.
pub open spec fn table_symbol(
    table: spec_fn(Seq<char>, bool) -> u32,
    names: Seq<(Seq<char>, bool)>,
) -> u32
    decreases names.len(),
{
    if names.len() == 0 {
        NO_SYMBOL
    } else if table(names[0].0, names[0].1) != NO_SYMBOL {
        table(names[0].0, names[0].1)
    } else {
        table_symbol(table, names.skip(1))
    }
}

/// The keysym of a key by lookup tables.
pub open spec fn table_keysym(
    key: KeyName,
    table: spec_fn(Seq<char>, bool) -> u32,
    codepoints: spec_fn(u32) -> u32,
) -> u32 {
    match key {
        KeyName::Codepoint(c) => codepoints(c as u32),
        KeyName::Name(name) => table_symbol(table, guess_names(name@)),
        KeyName::Neither => NO_SYMBOL,
    }
}

/// The keys that the descriptions stand for by lookup tables, in order, without those that have
/// no keysym.
pub open spec fn table_keys(
    specs: Seq<KeySpec>,
    table: spec_fn(Seq<char>, bool) -> u32,
    codepoints: spec_fn(u32) -> u32,
) -> Seq<InterceptedKey>
    decreases specs.len(),
{
    if specs.len() == 0 {
        Seq::empty()
    } else {
        let head = table_keys(specs.drop_last(), table, codepoints);
        let sym = table_keysym(specs.last().key, table, codepoints);
        if sym == NO_SYMBOL {
            head
        } else {
            head.push(key_of(specs.last(), sym))
        }
    }
}

/// The lookup answers by the table.
pub open spec fn answers_by<F: Fn(KeyNameGuess) -> u32>(
    look_up: F,
    table: spec_fn(Seq<char>, bool) -> u32,
) -> bool {
    forall|g: KeyNameGuess, s: u32| #[trigger]
        call_ensures(look_up, (g,), s) ==> s == table(g.name@, g.ignore_case)
}

/// With a lookup that answers by a table, a name resolves to the first of its guesses that is in
/// the table, and to nothing else.
pub proof fn law_names_resolve_by_the_table<F: Fn(KeyNameGuess) -> u32>(
    look_up: F,
    table: spec_fn(Seq<char>, bool) -> u32,
    names: Seq<(Seq<char>, bool)>,
    r: u32,
)
    requires
        answers_by(look_up, table),
        resolves_to(look_up, names, r),
    ensures
        r == table_symbol(table, names),
    decreases names.len(),
{
    if names.len() > 0 {
        let (g, s) = choose|g: KeyNameGuess, s: u32| #[trigger]
            call_ensures(look_up, (g,), s) && guesses(g, names[0].0, names[0].1) && if s
                != NO_SYMBOL {
                r == s
            } else {
                resolves_to(look_up, names.skip(1), r)
            };
        if s == NO_SYMBOL {
            law_names_resolve_by_the_table(look_up, table, names.skip(1), r);
        }
    }
}

/// The intercepted keys are exactly those of the descriptions that have a keysym, one for each, in
/// the order of the descriptions.
pub proof fn law_keys_follow_the_descriptions<F: Fn(KeyNameGuess) -> u32, G: Fn(u32) -> u32>(
    specs: Seq<KeySpec>,
    look_up: F,
    of_codepoint: G,
    table: spec_fn(Seq<char>, bool) -> u32,
    codepoints: spec_fn(u32) -> u32,
    keys: Seq<InterceptedKey>,
)
    requires
        answers_by(look_up, table),
        forall|c: u32, s: u32| #[trigger]
            call_ensures(of_codepoint, (c,), s) ==> s == codepoints(c),
        keys_follow(specs, look_up, of_codepoint, keys),
    ensures
        keys == table_keys(specs, table, codepoints),
    decreases specs.len(),
{
    if specs.len() > 0 {
        let sym = choose|sym: u32| #[trigger]
            key_resolves(specs.last().key, look_up, of_codepoint, sym) && if sym == NO_SYMBOL {
                keys_follow(specs.drop_last(), look_up, of_codepoint, keys)
            } else {
                &&& keys.len() > 0
                &&& keys.last() == key_of(specs.last(), sym)
                &&& keys_follow(specs.drop_last(), look_up, of_codepoint, keys.drop_last())
            };
        match specs.last().key {
            KeyName::Name(name) => {
                law_names_resolve_by_the_table(look_up, table, guess_names(name@), sym);
            },
            _ => {},
        }
        let head = if sym == NO_SYMBOL {
            keys
        } else {
            keys.drop_last()
        };
        law_keys_follow_the_descriptions(
            specs.drop_last(),
            look_up,
            of_codepoint,
            table,
            codepoints,
            head,
        );
        assert(sym != NO_SYMBOL ==> keys =~= head.push(keys.last()));
    } else {
        assert(keys =~= Seq::empty());
    }
}

} // verus!
