//! Sampling a node's transaction count, and naming the node in the lines
//! printed for it.
use vstd::prelude::*;
use crate::numparse::ascii_decimal;

verus! {

/// A duration of `secs` seconds and `subsec_nanos` nanoseconds, in nanoseconds.
pub fn duration_nanos(secs: u64, subsec_nanos: u32) -> (nanos: u64)
    requires
        secs * 1_000_000_000 + subsec_nanos <= u64::MAX,
    ensures
        nanos == secs * 1_000_000_000 + subsec_nanos,
{
    secs * 1_000_000_000 + subsec_nanos as u64
}

/// One sample of a node's transaction count.
#[derive(PartialEq, Eq, Structural, Debug, Clone, Copy)]
pub struct TxSample {
    /// Transactions processed since the previous sample.
    pub sample: u64,
    /// Transactions processed since the benchmark began, or 0 where the count
    /// is not above the count at the start.
    pub total: u64,
}

/// The counts against which a node's samples are taken.
pub struct SampleTracker {
    first: u64,
    last: u64,
}

impl SampleTracker {
    /// The transaction count when the benchmark began.
    pub closed spec fn first(&self) -> u64 {
        self.first
    }

    /// The count read last.
    pub closed spec fn last(&self) -> u64 {
        self.last
    }

    pub fn new(first_tx_count: u64, initial_tx_count: u64) -> (tracker: SampleTracker)
        ensures
            tracker.first() == first_tx_count,
            tracker.last() == initial_tx_count,
    {
        SampleTracker { first: first_tx_count, last: initial_tx_count }
    }

    pub fn last_count(&self) -> (count: u64)
        ensures
            count == self.last(),
    {
        self.last
    }

    /// Takes a new reading of the node's transaction count, which never goes
    /// down.
    pub fn observe(&mut self, tx_count: u64) -> (s: TxSample)
        requires
            tx_count >= old(self).last(),
        ensures
            s.sample == tx_count - old(self).last(),
            s.total == (if tx_count > old(self).first() {
                tx_count - old(self).first()
            } else {
                0
            }),
            final(self).last() == tx_count,
            final(self).first() == old(self).first(),
    {
        let sample = tx_count - self.last;
        self.last = tx_count;
        let total = if tx_count > self.first {
            tx_count - self.first
        } else {
            0
        };
        TxSample { sample, total }
    }
}

/// Over consecutive readings, the samples add up to the growth of the count.
pub open spec fn sum_of_samples(counts: Seq<u64>) -> int
    decreases counts.len(),
{
    if counts.len() < 2 {
        0
    } else {
        sum_of_samples(counts.drop_last()) + (counts.last() - counts[counts.len() - 2])
    }
}

/// The samples taken over a run of readings add up to the last reading less
/// the first.
pub proof fn lemma_samples_add_up(counts: Seq<u64>)
    requires
        counts.len() >= 1,
    ensures
        sum_of_samples(counts) == counts.last() - counts[0],
    decreases counts.len(),
{
    if counts.len() >= 2 {
        lemma_samples_add_up(counts.drop_last());
    }
}

/// The width of the address column.
pub const ADDRESS_WIDTH: usize = 21;

/// An address left-aligned in a column of 21 characters, then a colon, as
/// `format!("{:21}:", address)` writes an ASCII address.
pub open spec fn log_prefix_spec(address: Seq<u8>) -> Seq<u8> {
    let pad: nat = if address.len() < ADDRESS_WIDTH { (ADDRESS_WIDTH - address.len()) as nat } else { 0 };
    address + Seq::new(pad, |i: int| 32u8) + seq![58u8]
}

/// The column that starts every line printed for a node.
pub fn log_prefix(address: &[u8]) -> (prefix: Vec<u8>)
    requires
        address@.len() < usize::MAX - ADDRESS_WIDTH,
    ensures
        prefix@ == log_prefix_spec(address@),
{
    let mut prefix: Vec<u8> = Vec::new();
    let mut i: usize = 0;
    while i < address.len()
        invariant
            i <= address@.len(),
            prefix@ == address@.take(i as int),
        decreases address@.len() - i,
    {
        prefix.push(address[i]);
        i = i + 1;
        assert(prefix@ =~= address@.take(i as int));
    }
    assert(address@.take(i as int) =~= address@);
    let ghost pad: nat = if address@.len() < ADDRESS_WIDTH {
        (ADDRESS_WIDTH - address@.len()) as nat
    } else {
        0
    };
    while prefix.len() < ADDRESS_WIDTH
        invariant
            address@.len() <= prefix@.len() <= if address@.len() < ADDRESS_WIDTH {
                ADDRESS_WIDTH as int
            } else {
                address@.len() as int
            },
            prefix@ == address@ + Seq::new((prefix@.len() - address@.len()) as nat, |i: int| 32u8),
        decreases ADDRESS_WIDTH - prefix@.len(),
    {
        prefix.push(32u8);
        assert(prefix@ =~= address@ + Seq::new(
            (prefix@.len() - address@.len()) as nat,
            |i: int| 32u8,
        ));
    }
    assert(prefix@.len() - address@.len() == pad);
    prefix.push(58u8);
    assert(prefix@ =~= log_prefix_spec(address@));
    prefix
}

pub open spec fn is_separator(c: u8) -> bool {
    c == 46 || c == 58
}

/// The pieces of `s` between dots and colons, as `str::split` cuts with a
/// pattern that matches `.` or `:`; there is always at least one.
pub open spec fn split_fields(s: Seq<u8>) -> Seq<Seq<u8>>
    decreases s.len(),
{
    if s.len() == 0 {
        seq![Seq::<u8>::empty()]
    } else {
        let before = split_fields(s.drop_last());
        if is_separator(s.last()) {
            before.push(Seq::<u8>::empty())
        } else {
            before.update(before.len() - 1, before.last().push(s.last()))
        }
    }
}

proof fn lemma_split_fields_nonempty(s: Seq<u8>)
    ensures
        split_fields(s).len() >= 1,
    decreases s.len(),
{
    if s.len() > 0 {
        lemma_split_fields_nonempty(s.drop_last());
    }
}

pub open spec fn fields_view(fields: Seq<Vec<u8>>) -> Seq<Seq<u8>> {
    fields.map_values(|f: Vec<u8>| f@)
}

/// Cuts `s` at every dot and colon.
pub fn split_address_fields(s: &[u8]) -> (fields: Vec<Vec<u8>>)
    ensures
        fields_view(fields@) == split_fields(s@),
{
    let mut done: Vec<Vec<u8>> = Vec::new();
    let mut current: Vec<u8> = Vec::new();
    let mut i: usize = 0;
    assert(fields_view(done@).push(current@) =~= split_fields(s@.take(0)));
    while i < s.len()
        invariant
            i <= s@.len(),
            fields_view(done@).push(current@) == split_fields(s@.take(i as int)),
        decreases s@.len() - i,
    {
        let c = s[i];
        assert(s@.take(i + 1).drop_last() =~= s@.take(i as int));
        proof {
            lemma_split_fields_nonempty(s@.take(i as int));
        }
        if c == 46 || c == 58 {
            done.push(current);
            current = Vec::new();
            assert(fields_view(done@).push(current@) =~= split_fields(s@.take(i + 1)));
        } else {
            current.push(c);
            assert(fields_view(done@).push(current@) =~= split_fields(s@.take(i + 1)));
        }
        i = i + 1;
    }
    assert(s@.take(i as int) =~= s@);
    done.push(current);
    assert(fields_view(done@) =~= split_fields(s@));
    done
}

fn decimal_text(n: u32) -> (text: Vec<u8>)
    ensures
        text@ == ascii_decimal(n as nat),
    decreases n,
{
    if n < 10 {
        let mut text = Vec::new();
        text.push(48u8 + n as u8);
        assert(text@ =~= ascii_decimal(n as nat));
        text
    } else {
        let mut text = decimal_text(n / 10);
        text.push(48u8 + (n % 10) as u8);
        text
    }
}

fn same_text(a: &Vec<u8>, b: &Vec<u8>) -> (same: bool)
    ensures
        same == (a@ == b@),
{
    if a.len() != b.len() {
        return false;
    }
    let mut i: usize = 0;
    while i < a.len()
        invariant
            a@.len() == b@.len(),
            i <= a@.len(),
            forall|j: int| 0 <= j < i ==> a@[j] == b@[j],
        decreases a@.len() - i,
    {
        if a[i] != b[i] {
            return false;
        }
        i = i + 1;
    }
    assert(a@ =~= b@);
    true
}

/// Whether field `i` (which exists) reads `n`.
fn field_is(fields: &Vec<Vec<u8>>, i: usize, n: u32) -> (is: bool)
    requires
        i < fields@.len(),
    ensures
        is == (fields@[i as int]@ == ascii_decimal(n as nat)),
{
    let text = decimal_text(n);
    same_text(&fields[i], &text)
}

/// Where a node stands, told by its address.
#[derive(PartialEq, Eq, Structural, Debug, Clone, Copy)]
pub enum NodeLocation {
    Local,
    UsNewYork,
    DeFrankfurt,
    NeArmsterdam,
    SgSingaopore,
    CnPeking,
    Unknown,
}

pub open spec fn reads(f: Seq<Seq<u8>>, i: int, n: nat) -> bool {
    f[i] == ascii_decimal(n)
}

/// Whether fields start with the four numbers `a.b.c.d`, read left to right
/// and only as far as they match.
pub open spec fn reads_quad(f: Seq<Seq<u8>>, a: nat, b: nat, c: nat, d: nat) -> bool {
    reads(f, 0, a) && reads(f, 1, b) && reads(f, 2, c) && reads(f, 3, d)
}

/// The known nodes, by the fields of their log prefix.
pub open spec fn location_spec(f: Seq<Seq<u8>>) -> NodeLocation {
    if reads(f, 0, 192) && reads(f, 1, 168) {
        NodeLocation::Local
    } else if reads_quad(f, 148, 153, 36, 220) {
        NodeLocation::UsNewYork
    } else if reads_quad(f, 148, 153, 50, 162) {
        NodeLocation::DeFrankfurt
    } else if reads_quad(f, 148, 153, 25, 50) {
        NodeLocation::NeArmsterdam
    } else if reads_quad(f, 164, 52, 39, 162) {
        NodeLocation::SgSingaopore
    } else if reads_quad(f, 118, 186, 39, 238) {
        NodeLocation::CnPeking
    } else {
        NodeLocation::Unknown
    }
}

/// The fields looked at exist: two always, a third after a known pair of
/// first numbers, a fourth after a known triple.
pub open spec fn location_defined(f: Seq<Seq<u8>>) -> bool {
    &&& f.len() >= 2
    &&& (reads(f, 0, 148) && reads(f, 1, 153)) ==> f.len() >= 3
    &&& (reads(f, 0, 148) && reads(f, 1, 153) && (reads(f, 2, 36) || reads(f, 2, 50) || reads(
        f,
        2,
        25,
    ))) ==> f.len() >= 4
    &&& (reads(f, 0, 164) && reads(f, 1, 52)) ==> f.len() >= 3
    &&& (reads(f, 0, 164) && reads(f, 1, 52) && reads(f, 2, 39)) ==> f.len() >= 4
    &&& (reads(f, 0, 118) && reads(f, 1, 186)) ==> f.len() >= 3
    &&& (reads(f, 0, 118) && reads(f, 1, 186) && reads(f, 2, 39)) ==> f.len() >= 4
}

fn quad_is(fields: &Vec<Vec<u8>>, a: u32, b: u32, c: u32, d: u32) -> (is: bool)
    requires
        fields@.len() >= 2,
        (fields@[0]@ == ascii_decimal(a as nat) && fields@[1]@ == ascii_decimal(b as nat))
            ==> fields@.len() >= 3,
        (fields@[0]@ == ascii_decimal(a as nat) && fields@[1]@ == ascii_decimal(b as nat)
            && fields@[2]@ == ascii_decimal(c as nat)) ==> fields@.len() >= 4,
    ensures
        is == reads_quad(fields_view(fields@), a as nat, b as nat, c as nat, d as nat),
{
    field_is(fields, 0, a) && field_is(fields, 1, b) && field_is(fields, 2, c) && field_is(
        fields,
        3,
        d,
    )
}

/// Names where the node with this log prefix stands.
pub fn node_location(prefix: &[u8]) -> (location: NodeLocation)
    requires
        location_defined(split_fields(prefix@)),
    ensures
        location == location_spec(split_fields(prefix@)),
{
    let fields = split_address_fields(prefix);
    let ghost f = fields_view(fields@);
    assert(forall|i: int| 0 <= i < fields@.len() ==> f[i] == fields@[i]@);
    if field_is(&fields, 0, 192) && field_is(&fields, 1, 168) {
        NodeLocation::Local
    } else if quad_is(&fields, 148, 153, 36, 220) {
        NodeLocation::UsNewYork
    } else if quad_is(&fields, 148, 153, 50, 162) {
        NodeLocation::DeFrankfurt
    } else if quad_is(&fields, 148, 153, 25, 50) {
        NodeLocation::NeArmsterdam
    } else if quad_is(&fields, 164, 52, 39, 162) {
        NodeLocation::SgSingaopore
    } else if quad_is(&fields, 118, 186, 39, 238) {
        NodeLocation::CnPeking
    } else {
        NodeLocation::Unknown
    }
}

/// Whether every field that `node_location` looks at in this log prefix
/// exists.
pub fn location_is_defined(prefix: &[u8]) -> (defined: bool)
    ensures
        defined == location_defined(split_fields(prefix@)),
{
    let fields = split_address_fields(prefix);
    let ghost f = fields_view(fields@);
    assert(forall|i: int| 0 <= i < fields@.len() ==> f[i] == fields@[i]@);
    let n = fields.len();
    if n < 2 {
        return false;
    }
    if n >= 4 {
        return true;
    }
    let pair_148 = field_is(&fields, 0, 148) && field_is(&fields, 1, 153);
    let pair_164 = field_is(&fields, 0, 164) && field_is(&fields, 1, 52);
    let pair_118 = field_is(&fields, 0, 118) && field_is(&fields, 1, 186);
    if n == 2 {
        return !pair_148 && !pair_164 && !pair_118;
    }
    let third_148 = field_is(&fields, 2, 36) || field_is(&fields, 2, 50) || field_is(&fields, 2, 25);
    let third_39 = field_is(&fields, 2, 39);
    !(pair_148 && third_148) && !(pair_164 && third_39) && !(pair_118 && third_39)
}

impl NodeLocation {
    /// The name printed in the location column.
    pub fn label(&self) -> (name: &'static str)
        ensures
            name@ == (match self {
                NodeLocation::Local => "LOCAL"@,
                NodeLocation::UsNewYork => "US_NEW_YORK"@,
                NodeLocation::DeFrankfurt => "DE_FRANKFURT"@,
                NodeLocation::NeArmsterdam => "NE_ARMSTERDAM"@,
                NodeLocation::SgSingaopore => "SG_SINGAOPORE"@,
                NodeLocation::CnPeking => "CN_PEKING"@,
                NodeLocation::Unknown => "Node Location"@,
            }),
    {
        match self {
            NodeLocation::Local => "LOCAL",
            NodeLocation::UsNewYork => "US_NEW_YORK",
            NodeLocation::DeFrankfurt => "DE_FRANKFURT",
            NodeLocation::NeArmsterdam => "NE_ARMSTERDAM",
            NodeLocation::SgSingaopore => "SG_SINGAOPORE",
            NodeLocation::CnPeking => "CN_PEKING",
            NodeLocation::Unknown => "Node Location",
        }
    }
}

/// A node whose first two address fields read 192 and 168 is local, whatever
/// the other fields; a node named local has those two first fields.
pub proof fn lemma_private_range_is_local(f: Seq<Seq<u8>>)
    requires
        f.len() >= 2,
    ensures
        (f[0] == ascii_decimal(192) && f[1] == ascii_decimal(168)) <==> location_spec(f)
            == NodeLocation::Local,
{
}

/// A node named after a city has the four address fields of that city's
/// node, and a node with those four fields (not in the local range) is named
/// after it.
pub proof fn lemma_city_nodes(f: Seq<Seq<u8>>)
    requires
        f.len() >= 4,
    ensures
        location_spec(f) == NodeLocation::UsNewYork ==> f.take(4) == seq![ascii_decimal(148), ascii_decimal(153), ascii_decimal(36), ascii_decimal(220)],
        location_spec(f) == NodeLocation::DeFrankfurt ==> f.take(4) == seq![ascii_decimal(148), ascii_decimal(153), ascii_decimal(50), ascii_decimal(162)],
        location_spec(f) == NodeLocation::NeArmsterdam ==> f.take(4) == seq![ascii_decimal(148), ascii_decimal(153), ascii_decimal(25), ascii_decimal(50)],
        location_spec(f) == NodeLocation::SgSingaopore ==> f.take(4) == seq![ascii_decimal(164), ascii_decimal(52), ascii_decimal(39), ascii_decimal(162)],
        location_spec(f) == NodeLocation::CnPeking ==> f.take(4) == seq![ascii_decimal(118), ascii_decimal(186), ascii_decimal(39), ascii_decimal(238)],
        f.take(4) == seq![ascii_decimal(148), ascii_decimal(153), ascii_decimal(36), ascii_decimal(220)] ==> location_spec(f) == NodeLocation::UsNewYork,
        f.take(4) == seq![ascii_decimal(148), ascii_decimal(153), ascii_decimal(50), ascii_decimal(162)] ==> location_spec(f) == NodeLocation::DeFrankfurt,
        f.take(4) == seq![ascii_decimal(148), ascii_decimal(153), ascii_decimal(25), ascii_decimal(50)] ==> location_spec(f) == NodeLocation::NeArmsterdam,
        f.take(4) == seq![ascii_decimal(164), ascii_decimal(52), ascii_decimal(39), ascii_decimal(162)] ==> location_spec(f) == NodeLocation::SgSingaopore,
        f.take(4) == seq![ascii_decimal(118), ascii_decimal(186), ascii_decimal(39), ascii_decimal(238)] ==> location_spec(f) == NodeLocation::CnPeking,
{
    lemma_distinct_decimals();
    let t = f.take(4);
    assert(t[0] == f[0] && t[1] == f[1] && t[2] == f[2] && t[3] == f[3]);
    assert(location_spec(f) == NodeLocation::UsNewYork ==> t =~= seq![ascii_decimal(148), ascii_decimal(153), ascii_decimal(36), ascii_decimal(220)]);
    assert(location_spec(f) == NodeLocation::DeFrankfurt ==> t =~= seq![ascii_decimal(148), ascii_decimal(153), ascii_decimal(50), ascii_decimal(162)]);
    assert(location_spec(f) == NodeLocation::NeArmsterdam ==> t =~= seq![ascii_decimal(148), ascii_decimal(153), ascii_decimal(25), ascii_decimal(50)]);
    assert(location_spec(f) == NodeLocation::SgSingaopore ==> t =~= seq![ascii_decimal(164), ascii_decimal(52), ascii_decimal(39), ascii_decimal(162)]);
    assert(location_spec(f) == NodeLocation::CnPeking ==> t =~= seq![ascii_decimal(118), ascii_decimal(186), ascii_decimal(39), ascii_decimal(238)]);
}

proof fn lemma_distinct_decimals()
    ensures
        ascii_decimal(148) != ascii_decimal(192),
        ascii_decimal(164) != ascii_decimal(192),
        ascii_decimal(118) != ascii_decimal(192),
        ascii_decimal(148) != ascii_decimal(164),
        ascii_decimal(148) != ascii_decimal(118),
        ascii_decimal(164) != ascii_decimal(118),
        ascii_decimal(36) != ascii_decimal(50),
        ascii_decimal(36) != ascii_decimal(25),
        ascii_decimal(50) != ascii_decimal(25),
{
    reveal_with_fuel(ascii_decimal, 4);
    assert(ascii_decimal(148)[0] == 49u8 && ascii_decimal(192)[0] == 49u8);
    assert(ascii_decimal(148)[1] == 52u8 && ascii_decimal(192)[1] == 57u8);
    assert(ascii_decimal(164)[1] == 54u8);
    assert(ascii_decimal(118)[1] == 49u8);
    assert(ascii_decimal(36)[0] == 51u8 && ascii_decimal(50)[0] == 53u8 && ascii_decimal(25)[0] == 50u8);
}

/// The log prefix is the address, then spaces up to a width of 21, then one
/// colon.
pub proof fn lemma_log_prefix_shape(address: Seq<u8>)
    ensures
        log_prefix_spec(address).len() == (if address.len() < 21 { 21 } else { address.len() }) + 1,
        log_prefix_spec(address).take(address.len() as int) == address,
        forall|i: int|
            address.len() <= i < log_prefix_spec(address).len() - 1 ==> #[trigger] log_prefix_spec(address)[i]
                == 32u8,
        log_prefix_spec(address).last() == 58u8,
{
    let p = log_prefix_spec(address);
    assert(p.take(address.len() as int) =~= address);
}

/// Cutting at dots and colons gives one field more than there are dots and
/// colons, no field holds a dot or a colon, and the fields laid end to end are
/// the text without its dots and colons.
pub proof fn lemma_split_fields_shape(s: Seq<u8>)
    ensures
        split_fields(s).len() == s.filter(|c: u8| c == 46 || c == 58).len() + 1,
        forall|k: int, j: int|
            0 <= k < split_fields(s).len() && 0 <= j < split_fields(s)[k].len() ==> #[trigger] split_fields(s)[k][j]
                != 46 && split_fields(s)[k][j] != 58,
        split_fields(s).flatten() == s.filter(|c: u8| c != 46 && c != 58),
    decreases s.len(),
{
    reveal_with_fuel(Seq::filter, 1);
    let f = split_fields(s);
    if s.len() == 0 {
        assert(seq![Seq::<u8>::empty()].flatten() =~= Seq::<u8>::empty()) by {
            seq![Seq::<u8>::empty()].lemma_flatten_one_element();
        }
    } else {
        let t = s.drop_last();
        let c = s.last();
        lemma_split_fields_shape(t);
        lemma_split_fields_nonempty(t);
        let before = split_fields(t);
        if c == 46 || c == 58 {
            before.lemma_flatten_push(Seq::<u8>::empty());
            assert(f =~= before.push(Seq::<u8>::empty()));
            assert(before.flatten() + Seq::<u8>::empty() =~= before.flatten());
            assert forall|k: int, j: int| 0 <= k < f.len() && 0 <= j < f[k].len() implies #[trigger] f[k][j]
                != 46 && f[k][j] != 58 by {
                if k < before.len() {
                    assert(f[k] == before[k]);
                }
            }
        } else {
            let init = before.drop_last();
            let last = before.last();
            assert(before =~= init.push(last));
            assert(f =~= init.push(last.push(c)));
            init.lemma_flatten_push(last);
            init.lemma_flatten_push(last.push(c));
            assert(init.flatten() + last.push(c) =~= (init.flatten() + last).push(c));
            assert forall|k: int, j: int| 0 <= k < f.len() && 0 <= j < f[k].len() implies #[trigger] f[k][j]
                != 46 && f[k][j] != 58 by {
                if k < before.len() - 1 {
                    assert(f[k] == before[k]);
                } else {
                    if j < last.len() {
                        assert(f[k][j] == before[k][j]);
                    }
                }
            }
        }
    }
}

/// Every field that naming a node looks at exists when the prefix holds at
/// least three dots or colons (as the prefix of an IPv4 address and port
/// does), and none does when it holds no dot or colon.
pub proof fn lemma_location_defined_by_separators(s: Seq<u8>)
    ensures
        s.filter(|c: u8| c == 46 || c == 58).len() >= 3 ==> location_defined(split_fields(s)),
        s.filter(|c: u8| c == 46 || c == 58).len() == 0 ==> !location_defined(split_fields(s)),
{
    lemma_split_fields_shape(s);
}

} // verus!
