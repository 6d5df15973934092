//! org.gnome.Mutter.DisplayConfig: the monitors as portals list them.
use super::OutputInfo;
use crate::text::{
    concat2, decimal, lemma_order_total, lemma_order_transitive, precedes, push_char, sorts_before,
    to_decimal,
};
use vstd::prelude::*;
use vstd::string::*;

verus! {

/// The names of a monitor: connector, vendor, product and serial number.
#[derive(Debug)]
pub struct MonitorNames {
    pub connector: String,
    pub vendor: String,
    pub product: String,
    pub serial: String,
}

/// Mode information
#[derive(Debug)]
pub struct Mode {
    pub id: String,
    pub width: i32,
    pub height: i32,
    /// Refresh rate in thousandths of the unit that is told.
    pub refresh: u32,
    /// Scales in 120ths.
    pub preferred_scale: u32,
    pub supported_scales: Vec<u32>,
    pub is_current: bool,
    pub is_preferred: bool,
}

/// Monitor information
#[derive(Debug)]
pub struct Monitor {
    pub names: MonitorNames,
    pub modes: Vec<Mode>,
    pub display_name: String,
    pub is_builtin: bool,
}

/// Logical monitor (an enabled output with position/scale)
#[derive(Debug)]
pub struct LogicalMonitor {
    pub x: i32,
    pub y: i32,
    /// Scale in 120ths.
    pub scale: u32,
    pub transform: u32,
    pub is_primary: bool,
    pub monitors: Vec<MonitorNames>,
}

/// The display configuration
#[derive(Debug)]
pub struct DisplayState {
    pub serial: u32,
    pub monitors: Vec<Monitor>,
    pub logical_monitors: Vec<LogicalMonitor>,
    pub layout_mode: u32,
}

/// `n` written in decimal, with a sign where it is negative.
pub open spec fn signed_decimal(n: int) -> Seq<char> {
    if n < 0 {
        seq!['-'] + decimal((-n) as nat)
    } else {
        decimal(n as nat)
    }
}

fn to_signed_decimal(n: i32) -> (r: String)
    ensures
        r@ == signed_decimal(n as int),
{
    if n < 0 {
        let m: i64 = -(n as i64);
        let digits = to_decimal(m as u64);
        let mut s = String::new();
        push_char(&mut s, '-');
        let r = concat2(s.as_str(), digits.as_str());
        assert(s@ =~= seq!['-']);
        r
    } else {
        to_decimal(n as u64)
    }
}

/// A number of thousandths, written with three digits behind the point.
pub open spec fn thousandths(n: nat) -> Seq<char> {
    decimal(n / 1000).push('.') + three_digits(n % 1000)
}

/// `n` written with three digits.
pub open spec fn three_digits(n: nat) -> Seq<char> {
    if n < 10 {
        seq!['0', '0'] + decimal(n)
    } else if n < 100 {
        seq!['0'] + decimal(n)
    } else {
        decimal(n)
    }
}

fn write_thousandths(n: u32) -> (r: String)
    ensures
        r@ == thousandths(n as nat),
{
    let mut head = to_decimal((n / 1000) as u64);
    push_char(&mut head, '.');
    let rest: u32 = n % 1000;
    let ghost start = head@;
    if rest < 100 {
        push_char(&mut head, '0');
    }
    if rest < 10 {
        push_char(&mut head, '0');
    }
    let tail = to_decimal(rest as u64);
    let r = concat2(head.as_str(), tail.as_str());
    assert(r@ =~= start + three_digits(rest as nat));
    r
}

/// The id of an output's mode.
pub open spec fn mode_id(o: OutputInfo) -> Seq<char> {
    signed_decimal(o.width as int).push('x') + signed_decimal(o.height as int).push('@')
        + thousandths(o.refresh as nat)
}

/// `m` holds the mode of an output.
pub open spec fn is_mode_of(m: Mode, o: OutputInfo) -> bool {
    &&& m.id@ == mode_id(o)
    &&& m.width == o.width
    &&& m.height == o.height
    &&& m.refresh == o.refresh
    &&& m.preferred_scale == 120
    &&& m.supported_scales@ == seq![120u32, 150, 180, 240]
    &&& m.is_current
    &&& m.is_preferred
}

/// `n` holds the names of the output at the place `idx`.
pub open spec fn are_names_of(n: MonitorNames, o: OutputInfo, idx: int) -> bool {
    &&& n.connector == o.name
    &&& n.vendor@ == "Unknown"@
    &&& n.product@ == "Unknown"@
    &&& n.serial@ == decimal(idx as nat)
}

/// `m` tells of the output at the place `idx`.
pub open spec fn is_monitor_of(m: Monitor, o: OutputInfo, idx: int) -> bool {
    &&& are_names_of(m.names, o, idx)
    &&& m.modes@.len() == 1
    &&& is_mode_of(m.modes@[0], o)
    &&& m.display_name == o.name
    &&& !m.is_builtin
}

/// `m` tells where the output at the place `idx` stands. The first one is the primary one.
pub open spec fn is_logical_of(m: LogicalMonitor, o: OutputInfo, idx: int) -> bool {
    &&& m.x == o.x
    &&& m.y == o.y
    &&& m.scale == 120
    &&& m.transform == 0
    &&& m.is_primary == (idx == 0)
    &&& m.monitors@.len() == 1
    &&& are_names_of(m.monitors@[0], o, idx)
}

/// The output at the place `i` is listed before the one at `j`: by name, and in their order
/// where the names are equal.
pub open spec fn listed_before(outputs: Seq<OutputInfo>, i: int, j: int) -> bool {
    sorts_before(outputs[i].name@, outputs[j].name@) || (outputs[i].name@ == outputs[j].name@ && i
        < j)
}

/// `order` holds the places of the first `n` outputs, each once, as they are listed.
pub open spec fn is_listing(outputs: Seq<OutputInfo>, order: Seq<usize>, n: nat) -> bool {
    &&& order.len() == n
    &&& forall|k: int| 0 <= k < order.len() ==> 0 <= #[trigger] order[k] < n
    &&& forall|k: int, l: int|
        0 <= k < l < order.len() ==> listed_before(
            outputs,
            #[trigger] order[k] as int,
            #[trigger] order[l] as int,
        )
}

/// A listing holds every output. It is the only one with its order.
pub proof fn law_listing_is_complete(outputs: Seq<OutputInfo>, order: Seq<usize>, i: usize)
    requires
        is_listing(outputs, order, outputs.len()),
        outputs.len() <= usize::MAX,
        i < outputs.len(),
    ensures
        exists|k: int| 0 <= k < order.len() && #[trigger] order[k] == i,
{
    assert(order.no_duplicates()) by {
        assert forall|k: int, l: int| 0 <= k < l < order.len() implies order[k] != order[l] by {
            lemma_order_total(outputs[order[k] as int].name@, outputs[order[l] as int].name@);
        }
    }
    let n = outputs.len();
    let whole = Set::new(|u: usize| u < n);
    lemma_small_numbers(n);
    order.unique_seq_to_set();
    assert(order.to_set().subset_of(whole));
    vstd::set_lib::lemma_subset_equality(order.to_set(), whole);
    assert(order.to_set().contains(i));
}

proof fn lemma_small_numbers(n: nat)
    requires
        n <= usize::MAX,
    ensures
        Set::new(|u: usize| u < n).finite(),
        Set::new(|u: usize| u < n).len() == n,
    decreases n,
{
    let s = Set::new(|u: usize| u < n);
    if n == 0 {
        assert(s =~= Set::empty());
    } else {
        lemma_small_numbers((n - 1) as nat);
        let t = Set::new(|u: usize| u < (n - 1) as nat);
        assert(s =~= t.insert((n - 1) as usize));
    }
}

/// The outputs in the order in which they are listed.
fn listing(outputs: &Vec<OutputInfo>) -> (r: Vec<usize>)
    ensures
        is_listing(outputs@, r@, outputs@.len()),
{
    let mut order: Vec<usize> = Vec::new();
    let mut i: usize = 0;
    while i < outputs.len()
        invariant
            i <= outputs@.len(),
            is_listing(outputs@, order@, i as nat),
        decreases outputs@.len() - i,
    {
        // Outputs with the same name stay in their order.
        let mut p: usize = order.len();
        while p > 0 && precedes(outputs[i].name.as_str(), outputs[order[p - 1]].name.as_str())
            invariant
                i < outputs@.len(),
                p <= order@.len(),
                is_listing(outputs@, order@, i as nat),
                forall|k: int|
                    p <= k < order@.len() ==> sorts_before(
                        outputs@[i as int].name@,
                        outputs@[#[trigger] order@[k] as int].name@,
                    ),
            decreases p,
        {
            p = p - 1;
        }
        let ghost before = order@;
        order.insert(p, i);
        proof {
            assert(order@ =~= before.insert(p as int, i));
            lemma_inserted(outputs@, before, order@, i, p as int);
        }
        i = i + 1;
    }
    order
}

proof fn lemma_inserted(
    outputs: Seq<OutputInfo>,
    before: Seq<usize>,
    after: Seq<usize>,
    i: usize,
    p: int,
)
    requires
        i < outputs.len(),
        is_listing(outputs, before, i as nat),
        0 <= p <= before.len(),
        after == before.insert(p, i),
        forall|k: int|
            p <= k < before.len() ==> sorts_before(
                outputs[i as int].name@,
                outputs[#[trigger] before[k] as int].name@,
            ),
        p > 0 ==> !sorts_before(outputs[i as int].name@, outputs[before[p - 1] as int].name@),
    ensures
        is_listing(outputs, after, (i + 1) as nat),
{
    let n = outputs[i as int].name@;
    assert forall|k: int| 0 <= k < after.len() implies 0 <= #[trigger] after[k] < i + 1 by {
        if k < p {
            assert(after[k] == before[k]);
        } else if k > p {
            assert(after[k] == before[k - 1]);
        }
    }
    assert forall|k: int, l: int| 0 <= k < l < after.len() implies listed_before(
        outputs,
        #[trigger] after[k] as int,
        #[trigger] after[l] as int,
    ) by {
        if l < p {
            assert(after[k] == before[k] && after[l] == before[l]);
        } else if l == p {
            assert(after[k] == before[k]);
            let x = outputs[before[k] as int].name@;
            let y = outputs[before[p - 1] as int].name@;
            lemma_order_total(y, n);
            if k < p - 1 {
                assert(listed_before(outputs, before[k] as int, before[p - 1] as int));
                if sorts_before(x, y) && sorts_before(y, n) {
                    lemma_order_transitive(x, y, n);
                }
            }
        } else if k == p {
            assert(after[l] == before[l - 1]);
        } else if k < p {
            assert(after[k] == before[k] && after[l] == before[l - 1]);
        } else {
            assert(after[k] == before[k - 1] && after[l] == before[l - 1]);
        }
    }
}

fn names_of(o: &OutputInfo, idx: usize) -> (r: MonitorNames)
    ensures
        are_names_of(r, *o, idx as int),
{
    MonitorNames {
        connector: o.name.clone(),
        vendor: "Unknown".to_owned(),
        product: "Unknown".to_owned(),
        serial: to_decimal(idx as u64),
    }
}

fn mode_of(o: &OutputInfo) -> (r: Mode)
    ensures
        is_mode_of(r, *o),
{
    let mut width = to_signed_decimal(o.width);
    push_char(&mut width, 'x');
    let mut height = to_signed_decimal(o.height);
    push_char(&mut height, '@');
    let size = concat2(width.as_str(), height.as_str());
    let refresh = write_thousandths(o.refresh);
    let id = concat2(size.as_str(), refresh.as_str());
    let mut scales: Vec<u32> = Vec::new();
    scales.push(120);
    scales.push(150);
    scales.push(180);
    scales.push(240);
    assert(scales@ =~= seq![120u32, 150, 180, 240]);
    Mode {
        id,
        width: o.width,
        height: o.height,
        refresh: o.refresh,
        preferred_scale: 120,
        supported_scales: scales,
        is_current: true,
        is_preferred: true,
    }
}

/// DisplayConfig interface
#[derive(Debug)]
pub struct DisplayConfig {
    pub outputs: Vec<OutputInfo>,
}

impl DisplayConfig {
    pub fn new(outputs: Vec<OutputInfo>) -> (r: Self)
        ensures
            r.outputs == outputs,
    {
        DisplayConfig { outputs }
    }

    /// Get the current display configuration state. The monitors are sorted by connector name.
    pub fn get_current_state(&self) -> (r: DisplayState)
        ensures
            r.serial == 0,
            r.layout_mode == 1,
            exists|order: Seq<usize>| #[trigger]
                is_listing(self.outputs@, order, self.outputs@.len()) && r.monitors@.len()
                    == order.len() && r.logical_monitors@.len() == order.len() && (forall|k: int|
                    0 <= k < order.len() ==> {
                        &&& is_monitor_of(
                            #[trigger] r.monitors@[k],
                            self.outputs@[order[k] as int],
                            order[k] as int,
                        )
                        &&& is_logical_of(
                            r.logical_monitors@[k],
                            self.outputs@[order[k] as int],
                            order[k] as int,
                        )
                    }),
    {
        let order = listing(&self.outputs);
        let mut monitors: Vec<Monitor> = Vec::new();
        let mut logical: Vec<LogicalMonitor> = Vec::new();
        let mut k: usize = 0;
        while k < order.len()
            invariant
                k <= order@.len(),
                is_listing(self.outputs@, order@, self.outputs@.len()),
                monitors@.len() == k,
                logical@.len() == k,
                forall|j: int|
                    0 <= j < k ==> {
                        &&& is_monitor_of(
                            #[trigger] monitors@[j],
                            self.outputs@[order@[j] as int],
                            order@[j] as int,
                        )
                        &&& is_logical_of(
                            logical@[j],
                            self.outputs@[order@[j] as int],
                            order@[j] as int,
                        )
                    },
            decreases order@.len() - k,
        {
            let idx: usize = order[k];
            let o = &self.outputs[idx];
            let mut modes: Vec<Mode> = Vec::new();
            modes.push(mode_of(o));
            let monitor = Monitor {
                names: names_of(o, idx),
                modes,
                display_name: o.name.clone(),
                is_builtin: false,
            };
            assert(is_monitor_of(monitor, *o, idx as int));
            let mut names: Vec<MonitorNames> = Vec::new();
            names.push(names_of(o, idx));
            let place = LogicalMonitor {
                x: o.x,
                y: o.y,
                scale: 120,
                transform: 0,
                is_primary: idx == 0,
                monitors: names,
            };
            assert(is_logical_of(place, *o, idx as int));
            monitors.push(monitor);
            logical.push(place);
            k = k + 1;
        }
        DisplayState { serial: 0, monitors, logical_monitors: logical, layout_mode: 1 }
    }

    /// The displays' power is not told.
    pub fn power_save_mode(&self) -> (r: i32)
        ensures
            r == -1,
    {
        -1
    }
}

} // verus!
