//! Interface byte counters as `/proc/net/dev` lists them, and the choice of
//! the interface that carries the VPN tunnel.
use vstd::prelude::*;

use crate::text::{
    from_chars, has_prefix, has_sub, is_ws, parse_unsigned, parse_unsigned_chars, split_words,
    starts_with_chars, to_chars, trim, trim_chars, words,
};

verus! {

// ─── Lines ────────────────────────────────────────────────────────────────────

/// The pieces of `s` that `split_inclusive('\n')` yields: a piece starts at
/// the beginning and after every newline, and keeps its newline.
pub open spec fn newline_pieces(s: Seq<char>) -> Seq<Seq<char>>
    decreases s.len(),
{
    if s.len() == 0 {
        Seq::empty()
    } else {
        let w = newline_pieces(s.drop_last());
        let c = s.last();
        if s.len() == 1 || s[s.len() - 2] == '\n' || w.len() == 0 {
            w.push(seq![c])
        } else {
            w.drop_last().push(w.last().push(c))
        }
    }
}

/// A piece without its line ending (`\n` or `\r\n`).
pub open spec fn strip_line_end(p: Seq<char>) -> Seq<char> {
    if p.len() > 0 && p.last() == '\n' {
        let q = p.drop_last();
        if q.len() > 0 && q.last() == '\r' {
            q.drop_last()
        } else {
            q
        }
    } else {
        p
    }
}

/// `str::lines`: the lines of `s` without their line endings.
pub open spec fn lines(s: Seq<char>) -> Seq<Seq<char>> {
    newline_pieces(s).map_values(|p: Seq<char>| strip_line_end(p))
}

/// A line without its line ending.
fn strip_end(p: Vec<char>) -> (r: Vec<char>)
    ensures
        r@ == strip_line_end(p@),
{
    let mut q = p;
    if q.len() > 0 && q[q.len() - 1] == '\n' {
        q.pop();
        if q.len() > 0 && q[q.len() - 1] == '\r' {
            q.pop();
        }
    }
    q
}

/// The lines of `s`, as `str::lines` yields them.
pub fn split_lines(s: &[char]) -> (r: Vec<Vec<char>>)
    ensures
        r.deep_view() == lines(s@),
{
    // `dp` are the pieces that ended in a newline; `cur` is the open piece
    let ghost mut dp: Seq<Seq<char>> = Seq::empty();
    let mut out: Vec<Vec<char>> = Vec::new();
    let mut cur: Vec<char> = Vec::new();
    let mut i: usize = 0;
    while i < s.len()
        invariant
            i <= s@.len(),
            cur@.len() == 0 ==> (i == 0 || s@[i - 1] == '\n'),
            cur@.len() > 0 ==> i > 0 && s@[i - 1] != '\n',
            cur@.len() > 0 ==> newline_pieces(s@.take(i as int)) == dp.push(cur@),
            cur@.len() == 0 ==> newline_pieces(s@.take(i as int)) == dp,
            out.deep_view() == dp.map_values(|p: Seq<char>| strip_line_end(p)),
        decreases s@.len() - i,
    {
        let c = s[i];
        let ghost pre = s@.take(i as int);
        let ghost now = s@.take(i + 1);
        assert(now.drop_last() =~= pre);
        assert(now.last() == c);
        if i > 0 {
            assert(now[now.len() - 2] == s@[i - 1]);
        }
        if cur.len() == 0 {
            cur.push(c);
            assert(cur@ =~= seq![c]);
        } else {
            cur.push(c);
        }
        assert(newline_pieces(now) =~= dp.push(cur@));
        if c == '\n' {
            let ghost piece = cur@;
            let q = strip_end(cur);
            cur = Vec::new();
            let ghost ob = out.deep_view();
            assert(q.deep_view() =~= q@);
            out.push(q);
            proof {
                assert(out.deep_view() =~= ob.push(strip_line_end(piece)));
                assert(dp.push(piece).map_values(|p: Seq<char>| strip_line_end(p)) =~= dp.map_values(
                    |p: Seq<char>| strip_line_end(p),
                ).push(strip_line_end(piece)));
                dp = dp.push(piece);
            }
        }
        i += 1;
    }
    assert(s@.take(s@.len() as int) =~= s@);
    if cur.len() > 0 {
        let ghost piece = cur@;
        let q = strip_end(cur);
        let ghost ob = out.deep_view();
        assert(q.deep_view() =~= q@);
        out.push(q);
        assert(out.deep_view() =~= ob.push(strip_line_end(piece)));
        assert(dp.push(piece).map_values(|p: Seq<char>| strip_line_end(p)) =~= dp.map_values(
            |p: Seq<char>| strip_line_end(p),
        ).push(strip_line_end(piece)));
    }
    out
}

// ─── One line of /proc/net/dev ────────────────────────────────────────────────

/// Received and transmitted byte counts of one interface.
#[derive(Debug, Clone, Copy, PartialEq, Eq, Structural)]
pub struct NetStats {
    pub rx_bytes: u64,
    pub tx_bytes: u64,
}

/// Position of the first `c` in `s`.
pub open spec fn first_index_of(s: Seq<char>, c: char) -> Option<int>
    decreases s.len(),
{
    if s.len() == 0 {
        None
    } else if s[0] == c {
        Some(0)
    } else {
        match first_index_of(s.drop_first(), c) {
            Some(i) => Some(i + 1),
            None => None,
        }
    }
}

proof fn lemma_first_index_of(s: Seq<char>, c: char, i: int)
    requires
        0 <= i <= s.len(),
        forall|j: int| 0 <= j < i ==> s[j] != c,
    ensures
        i < s.len() && s[i] == c ==> first_index_of(s, c) == Some(i),
        i == s.len() ==> first_index_of(s, c) is None,
    decreases i,
{
    if i > 0 {
        let t = s.drop_first();
        assert forall|j: int| 0 <= j < i - 1 implies t[j] != c by {
            assert(t[j] == s[j + 1]);
        }
        lemma_first_index_of(t, c, i - 1);
    }
}

/// Position of the first `c` in `s`, as `str::find` gives it.
pub fn find_char(s: &[char], c: char) -> (r: Option<usize>)
    ensures
        r matches Some(i) ==> i < s@.len() && s@[i as int] == c,
        match r {
            Some(i) => first_index_of(s@, c) == Some(i as int),
            None => first_index_of(s@, c) is None,
        },
{
    let mut i: usize = 0;
    while i < s.len()
        invariant
            i <= s@.len(),
            forall|j: int| 0 <= j < i ==> s@[j] != c,
        decreases s@.len() - i,
    {
        if s[i] == c {
            proof {
                lemma_first_index_of(s@, c, i as int);
            }
            return Some(i);
        }
        i += 1;
    }
    proof {
        lemma_first_index_of(s@, c, i as int);
    }
    None
}

/// A counter field: its value when it parses as `u64`, otherwise 0.
pub open spec fn counter(field: Seq<char>) -> u64 {
    match parse_unsigned(field, u64::MAX as nat) {
        Some(v) => v as u64,
        None => 0,
    }
}

/// One line of `/proc/net/dev`: the interface name before the first `:`,
/// trimmed, with the first (received bytes) and ninth (transmitted bytes)
/// of the whitespace-separated fields after it; lines without a `:` or with
/// fewer than sixteen fields are skipped.
pub open spec fn net_dev_line(line: Seq<char>) -> Option<(Seq<char>, NetStats)> {
    match first_index_of(line, ':') {
        None => None,
        Some(c) => {
            let fields = words(line.subrange(c + 1, line.len() as int));
            if fields.len() < 16 {
                None
            } else {
                Some(
                    (
                        trim(line.subrange(0, c)),
                        NetStats { rx_bytes: counter(fields[0]), tx_bytes: counter(fields[8]) },
                    ),
                )
            }
        },
    }
}

/// The characters `s[from..to]`.
fn slice_chars(s: &[char], from: usize, to: usize) -> (r: Vec<char>)
    requires
        from <= to <= s@.len(),
    ensures
        r@ == s@.subrange(from as int, to as int),
{
    let mut r: Vec<char> = Vec::new();
    let mut i = from;
    while i < to
        invariant
            from <= i <= to <= s@.len(),
            r@ == s@.subrange(from as int, i as int),
        decreases to - i,
    {
        r.push(s[i]);
        i += 1;
        assert(r@ =~= s@.subrange(from as int, i as int));
    }
    r
}

/// Parses a counter field, 0 when it is not a `u64`.
fn parse_counter(field: &[char]) -> (r: u64)
    ensures
        r == counter(field@),
{
    match parse_unsigned_chars(field, u64::MAX) {
        Some(v) => v,
        None => 0,
    }
}

/// Parses one line of `/proc/net/dev`.
pub fn parse_net_dev_line(line: &[char]) -> (r: Option<(Vec<char>, NetStats)>)
    ensures
        match r {
            Some((name, st)) => net_dev_line(line@) == Some((name@, st)),
            None => net_dev_line(line@) is None,
        },
{
    let c = match find_char(line, ':') {
        Some(c) => c,
        None => {
            return None;
        },
    };
    assert(line@.len() == line.len());
    let values = slice_chars(line, c + 1, line.len());
    let fields = split_words(&values);
    if fields.len() < 16 {
        return None;
    }
    proof {
        assert(fields.deep_view()[0] == fields@[0]@);
        assert(fields.deep_view()[8] == fields@[8]@);
    }
    let rx = parse_counter(&fields[0]);
    let tx = parse_counter(&fields[8]);
    let name_part = slice_chars(line, 0, c);
    let name = trim_chars(&name_part);
    Some((name, NetStats { rx_bytes: rx, tx_bytes: tx }))
}

// ─── Tables of counters ───────────────────────────────────────────────────────

/// Counters by interface name, in the order the names were first seen.
#[derive(Debug)]
pub struct NetTable {
    pub entries: Vec<(String, NetStats)>,
}

impl Clone for NetTable {
    fn clone(&self) -> (r: Self)
        ensures
            r@ == self@,
    {
        let mut entries: Vec<(String, NetStats)> = Vec::new();
        let mut i: usize = 0;
        while i < self.entries.len()
            invariant
                i <= self.entries@.len(),
                entries_view(entries@) == entries_view(self.entries@).take(i as int),
            decreases self.entries@.len() - i,
        {
            let e = (self.entries[i].0.clone(), self.entries[i].1);
            assert(e == self.entries@[i as int]);
            let ghost before = entries@;
            entries.push(e);
            assert(entries@ == before.push(e));
            assert(entries_view(entries@) =~= entries_view(before).push((e.0@, e.1)));
            assert(entries_view(self.entries@).take(i + 1) =~= entries_view(self.entries@).take(
                i as int,
            ).push((e.0@, e.1)));
            i += 1;
        }
        assert(entries_view(self.entries@).take(i as int) =~= entries_view(self.entries@));
        NetTable { entries }
    }
}

/// The entries of a table taken by their values.
pub open spec fn entries_view(v: Seq<(String, NetStats)>) -> Seq<(Seq<char>, NetStats)> {
    v.map_values(|e: (String, NetStats)| (e.0@, e.1))
}

impl View for NetTable {
    type V = Seq<(Seq<char>, NetStats)>;

    open spec fn view(&self) -> Seq<(Seq<char>, NetStats)> {
        entries_view(self.entries@)
    }
}

/// Position of the entry called `name`.
pub open spec fn entry_index(t: Seq<(Seq<char>, NetStats)>, name: Seq<char>) -> Option<int> {
    if exists|i: int| 0 <= i < t.len() && t[i].0 == name && forall|j: int| 0 <= j < i ==> t[j].0 != name {
        Some(choose|i: int| 0 <= i < t.len() && t[i].0 == name && forall|j: int| 0 <= j < i ==> t[j].0 != name)
    } else {
        None
    }
}

/// The counters of interface `name`.
pub open spec fn lookup(t: Seq<(Seq<char>, NetStats)>, name: Seq<char>) -> Option<NetStats> {
    match entry_index(t, name) {
        Some(i) => Some(t[i].1),
        None => None,
    }
}

/// The counters of interface `name`, zero when it is not listed.
pub open spec fn lookup_or_zero(t: Seq<(Seq<char>, NetStats)>, name: Seq<char>) -> NetStats {
    match lookup(t, name) {
        Some(s) => s,
        None => NetStats { rx_bytes: 0, tx_bytes: 0 },
    }
}

/// `HashMap::insert`: the counters of `name` replaced, or added at the end.
pub open spec fn table_insert(t: Seq<(Seq<char>, NetStats)>, name: Seq<char>, st: NetStats) -> Seq<
    (Seq<char>, NetStats),
> {
    match entry_index(t, name) {
        Some(i) => t.update(i, (name, st)),
        None => t.push((name, st)),
    }
}

/// The table that `/proc/net/dev` content describes: its lines after the
/// two header lines, each parsed line inserted in order.
pub open spec fn net_dev_table(content: Seq<char>) -> Seq<(Seq<char>, NetStats)> {
    table_of_lines(after_header(lines(content)))
}

/// The lines after the first two (`Iterator::skip(2)`).
pub open spec fn after_header(ls: Seq<Seq<char>>) -> Seq<Seq<char>> {
    if ls.len() <= 2 {
        Seq::empty()
    } else {
        ls.skip(2)
    }
}

/// The table built from parsed lines, inserted in order.
pub open spec fn table_of_lines(ls: Seq<Seq<char>>) -> Seq<(Seq<char>, NetStats)>
    decreases ls.len(),
{
    if ls.len() == 0 {
        Seq::empty()
    } else {
        let t = table_of_lines(ls.drop_last());
        match net_dev_line(ls.last()) {
            Some((name, st)) => table_insert(t, name, st),
            None => t,
        }
    }
}

proof fn lemma_entry_index(t: Seq<(Seq<char>, NetStats)>, name: Seq<char>, i: int)
    requires
        0 <= i <= t.len(),
        forall|j: int| 0 <= j < i ==> t[j].0 != name,
    ensures
        i < t.len() && t[i].0 == name ==> entry_index(t, name) == Some(i),
        i == t.len() ==> entry_index(t, name) is None,
{
    if i < t.len() && t[i].0 == name {
        let k = choose|k: int|
            0 <= k < t.len() && t[k].0 == name && forall|j: int| 0 <= j < k ==> t[j].0 != name;
        assert(0 <= i < t.len() && t[i].0 == name && forall|j: int| 0 <= j < i ==> t[j].0 != name);
        if k < i {
            assert(t[k].0 == name);
        }
        if i < k {
            assert(t[i].0 == name);
        }
    }
    if i == t.len() {
        if exists|k: int|
            0 <= k < t.len() && t[k].0 == name && forall|j: int| 0 <= j < k ==> t[j].0 != name {
            let k = choose|k: int|
                0 <= k < t.len() && t[k].0 == name && forall|j: int| 0 <= j < k ==> t[j].0 != name;
            assert(t[k].0 == name);
        }
    }
}

/// No interface name occurs twice in a table.
pub open spec fn names_distinct(t: Seq<(Seq<char>, NetStats)>) -> bool {
    forall|i: int, j: int| 0 <= i < j < t.len() ==> #[trigger] t[i].0 != #[trigger] t[j].0
}

/// A name that occurs has a first occurrence.
proof fn lemma_entry_found(t: Seq<(Seq<char>, NetStats)>, name: Seq<char>, k: int)
    requires
        0 <= k < t.len(),
        t[k].0 == name,
    ensures
        entry_index(t, name) is Some,
    decreases k,
{
    if exists|j: int| 0 <= j < k && t[j].0 == name {
        let j = choose|j: int| 0 <= j < k && t[j].0 == name;
        lemma_entry_found(t, name, j);
    } else {
        assert(0 <= k < t.len() && t[k].0 == name && forall|j: int| 0 <= j < k ==> t[j].0 != name);
    }
}

/// Setting the counters of a name keeps the names distinct.
pub proof fn lemma_insert_keeps_names_distinct(
    t: Seq<(Seq<char>, NetStats)>,
    name: Seq<char>,
    st: NetStats,
)
    requires
        names_distinct(t),
    ensures
        names_distinct(table_insert(t, name, st)),
        lookup(table_insert(t, name, st), name) == Some(st),
{
    let r = table_insert(t, name, st);
    match entry_index(t, name) {
        Some(i) => {
            let i = choose|i: int|
                0 <= i < t.len() && t[i].0 == name && forall|j: int| 0 <= j < i ==> t[j].0 != name;
            assert(r == t.update(i, (name, st)));
            lemma_entry_index(r, name, i);
        },
        None => {
            assert forall|k: int| 0 <= k < t.len() implies t[k].0 != name by {
                if t[k].0 == name {
                    lemma_entry_found(t, name, k);
                }
            }
            assert(r == t.push((name, st)));
            lemma_entry_index(r, name, t.len() as int);
        },
    }
}

/// The table of parsed lines never lists a name twice.
pub proof fn lemma_table_of_lines_distinct(ls: Seq<Seq<char>>)
    ensures
        names_distinct(table_of_lines(ls)),
    decreases ls.len(),
{
    if ls.len() > 0 {
        lemma_table_of_lines_distinct(ls.drop_last());
        match net_dev_line(ls.last()) {
            Some((name, st)) => lemma_insert_keeps_names_distinct(table_of_lines(ls.drop_last()), name, st),
            None => {},
        }
    }
}

impl NetTable {
    /// An empty table.
    pub fn new() -> (r: NetTable)
        ensures
            r@ == Seq::<(Seq<char>, NetStats)>::empty(),
            names_distinct(r@),
    {
        let r = NetTable { entries: Vec::new() };
        assert(r@ =~= Seq::<(Seq<char>, NetStats)>::empty());
        r
    }

    /// Position of the entry called `name`.
    pub fn index_of(&self, name: &[char]) -> (r: Option<usize>)
        ensures
            match r {
                Some(i) => entry_index(self@, name@) == Some(i as int),
                None => entry_index(self@, name@) is None,
            },
    {
        let mut i: usize = 0;
        while i < self.entries.len()
            invariant
                i <= self.entries@.len(),
                forall|j: int| 0 <= j < i ==> self@[j].0 != name@,
            decreases self.entries@.len() - i,
        {
            let here = to_chars(self.entries[i].0.as_str());
            if crate::text::chars_eq(&here, name) {
                proof {
                    lemma_entry_index(self@, name@, i as int);
                }
                return Some(i);
            }
            i += 1;
        }
        proof {
            lemma_entry_index(self@, name@, i as int);
        }
        None
    }

    /// The counters of interface `name`.
    pub fn get(&self, name: &[char]) -> (r: Option<NetStats>)
        ensures
            r == lookup(self@, name@),
    {
        match self.index_of(name) {
            Some(i) => Some(self.entries[i].1),
            None => None,
        }
    }

    /// Whether interface `name` is listed.
    pub fn contains(&self, name: &[char]) -> (r: bool)
        ensures
            r == (lookup(self@, name@) is Some),
    {
        self.index_of(name).is_some()
    }

    /// Sets the counters of interface `name`, adding it when it is new.
    pub fn insert(&mut self, name: Vec<char>, st: NetStats)
        ensures
            final(self)@ == table_insert(old(self)@, name@, st),
            names_distinct(old(self)@) ==> names_distinct(final(self)@),
            names_distinct(old(self)@) ==> lookup(final(self)@, name@) == Some(st),
    {
        proof {
            if names_distinct(old(self)@) {
                lemma_insert_keeps_names_distinct(old(self)@, name@, st);
            }
        }
        let key = from_chars(&name);
        match self.index_of(&name) {
            Some(i) => {
                self.entries.set(i, (key, st));
                assert(self@ =~= old(self)@.update(i as int, (name@, st)));
            },
            None => {
                self.entries.push((key, st));
                assert(self@ =~= old(self)@.push((name@, st)));
            },
        }
    }
}

/// Parses the content of `/proc/net/dev`.
pub fn parse_net_dev(content: &str) -> (r: NetTable)
    ensures
        r@ == net_dev_table(content@),
        names_distinct(r@),
{
    proof {
        lemma_table_of_lines_distinct(after_header(lines(content@)));
    }
    let chars = to_chars(content);
    let ls = split_lines(&chars);
    let ghost all = ls.deep_view();
    let mut table = NetTable::new();
    let mut i: usize = 2;
    if ls.len() <= 2 {
        return table;
    }
    assert(all.skip(2).take(0) =~= Seq::<Seq<char>>::empty());
    while i < ls.len()
        invariant
            2 <= i <= ls@.len(),
            all == ls.deep_view(),
            table@ == table_of_lines(all.skip(2).take(i - 2)),
        decreases ls@.len() - i,
    {
        let ghost done = all.skip(2).take(i - 2);
        let ghost more = all.skip(2).take(i - 1);
        assert(ls.deep_view()[i as int] == ls@[i as int]@);
        assert(more.drop_last() =~= done);
        assert(more.last() == ls@[i as int]@);
        match parse_net_dev_line(&ls[i]) {
            Some((name, st)) => {
                table.insert(name, st);
            },
            None => {},
        }
        i += 1;
    }
    assert(all.skip(2).take(i - 2) =~= all.skip(2));
    table
}

// ─── Choosing the VPN interface ───────────────────────────────────────────────

/// Interface names that tunnels use.
pub open spec fn is_vpn_name(name: Seq<char>) -> bool {
    has_prefix(name, "ppp"@) || has_prefix(name, "tun"@) || has_prefix(name, "tap"@) || has_prefix(
        name,
        "utun"@,
    ) || has_prefix(name, "vpn"@)
}

/// Whether `iface` looks like a tunnel interface (`ppp`, `tun`, `tap`,
/// `utun` or `vpn` prefix).
pub fn is_likely_vpn_interface(iface: &str) -> (r: bool)
    ensures
        r == is_vpn_name(iface@),
{
    let s = to_chars(iface);
    starts_with_chars(&s, "ppp") || starts_with_chars(&s, "tun") || starts_with_chars(&s, "tap")
        || starts_with_chars(&s, "utun") || starts_with_chars(&s, "vpn")
}

/// `a - b`, or 0 when `b > a` (`u64::saturating_sub`).
pub open spec fn sat_sub(a: u64, b: u64) -> u64 {
    if a >= b {
        (a - b) as u64
    } else {
        0
    }
}

/// `a + b`, or `u64::MAX` when that overflows (`u64::saturating_add`).
pub open spec fn sat_add(a: u64, b: u64) -> u64 {
    if a + b <= u64::MAX {
        (a + b) as u64
    } else {
        u64::MAX
    }
}

/// Bytes moved, both ways, between `base` and `now`.
pub open spec fn traffic(now: NetStats, base: NetStats) -> u64 {
    sat_add(sat_sub(now.rx_bytes, base.rx_bytes), sat_sub(now.tx_bytes, base.tx_bytes))
}

/// Among the first `k` entries of `cur`, the last tunnel-like interface with
/// the most traffic since `init` (`Iterator::max_by_key` keeps the last of
/// equal maxima).
pub open spec fn busiest_upto(
    cur: Seq<(Seq<char>, NetStats)>,
    init: Seq<(Seq<char>, NetStats)>,
    k: int,
) -> Option<int>
    decreases k,
{
    if k <= 0 {
        None
    } else {
        let b = busiest_upto(cur, init, k - 1);
        let e = cur[k - 1];
        if !is_vpn_name(e.0) {
            b
        } else {
            match b {
                None => Some(k - 1),
                Some(j) => if traffic(e.1, lookup_or_zero(init, e.0)) >= traffic(
                    cur[j].1,
                    lookup_or_zero(init, cur[j].0),
                ) {
                    Some(k - 1)
                } else {
                    b
                },
            }
        }
    }
}

/// The interface that carries the tunnel: the busiest tunnel-like interface
/// since `init`, kept when it moved bytes since `prev` or did not exist at
/// `init`.
pub open spec fn vpn_interface(
    init: Seq<(Seq<char>, NetStats)>,
    prev: Seq<(Seq<char>, NetStats)>,
    cur: Seq<(Seq<char>, NetStats)>,
) -> Option<Seq<char>> {
    match busiest_upto(cur, init, cur.len() as int) {
        None => None,
        Some(j) => {
            let e = cur[j];
            if traffic(e.1, lookup_or_zero(prev, e.0)) > 0 || lookup(init, e.0) is None {
                Some(e.0)
            } else {
                None
            }
        },
    }
}

/// `a - b`, or 0.
pub fn saturating_sub(a: u64, b: u64) -> (r: u64)
    ensures
        r == sat_sub(a, b),
{
    if a >= b {
        a - b
    } else {
        0
    }
}

/// `a + b`, or `u64::MAX`.
pub fn saturating_add(a: u64, b: u64) -> (r: u64)
    ensures
        r == sat_add(a, b),
{
    if a <= u64::MAX - b {
        a + b
    } else {
        u64::MAX
    }
}

/// The counters of `name` in `t`, zero when it is not listed.
fn get_or_zero(t: &NetTable, name: &[char]) -> (r: NetStats)
    ensures
        r == lookup_or_zero(t@, name@),
{
    match t.get(name) {
        Some(s) => s,
        None => NetStats { rx_bytes: 0, tx_bytes: 0 },
    }
}

/// Bytes moved, both ways, between `base` and `now`.
fn traffic_exec(now: NetStats, base: NetStats) -> (r: u64)
    ensures
        r == traffic(now, base),
{
    saturating_add(
        saturating_sub(now.rx_bytes, base.rx_bytes),
        saturating_sub(now.tx_bytes, base.tx_bytes),
    )
}

/// Finds the interface that carries the tunnel (see [`vpn_interface`]).
pub fn detect_vpn_interface(initial: &NetTable, previous: &NetTable, current: &NetTable) -> (r:
    Option<String>)
    ensures
        match r {
            Some(s) => vpn_interface(initial@, previous@, current@) == Some(s@),
            None => vpn_interface(initial@, previous@, current@) is None,
        },
{
    let mut best: Option<usize> = None;
    let mut best_key: u64 = 0;
    let mut k: usize = 0;
    while k < current.entries.len()
        invariant
            k <= current@.len(),
            busiest_upto(current@, initial@, k as int) == match best {
                Some(j) => Some(j as int),
                None => None::<int>,
            },
            best matches Some(j) ==> j < k && best_key == traffic(
                current@[j as int].1,
                lookup_or_zero(initial@, current@[j as int].0),
            ),
        decreases current@.len() - k,
    {
        let name = to_chars(current.entries[k].0.as_str());
        let st = current.entries[k].1;
        proof {
            assert(current@[k as int] == (name@, st));
        }
        if is_likely_vpn_interface(current.entries[k].0.as_str()) {
            let key = traffic_exec(st, get_or_zero(initial, &name));
            match best {
                None => {
                    best = Some(k);
                    best_key = key;
                },
                Some(_) => {
                    if key >= best_key {
                        best = Some(k);
                        best_key = key;
                    }
                },
            }
        }
        k += 1;
    }
    match best {
        None => None,
        Some(j) => {
            let name = to_chars(current.entries[j].0.as_str());
            let st = current.entries[j].1;
            proof {
                assert(current@[j as int] == (name@, st));
            }
            let delta = traffic_exec(st, get_or_zero(previous, &name));
            let is_new = !initial.contains(&name);
            if delta > 0 || is_new {
                Some(current.entries[j].0.clone())
            } else {
                None
            }
        },
    }
}


// ─── Rendering a rate ─────────────────────────────────────────────────────────

/// `2` to the power `n`.
pub open spec fn pow2n(n: nat) -> nat
    decreases n,
{
    if n == 0 {
        1
    } else {
        2 * pow2n((n - 1) as nat)
    }
}

/// How many low bits of `b` do not fit in the 53-bit significand of an `f64`.
pub open spec fn excess_bits(b: nat) -> nat
    decreases b,
{
    if b < 9007199254740992 {
        0
    } else {
        1 + excess_bits(b / 2)
    }
}

/// The value of `b as f64`: `b` rounded to 53 significant bits, to nearest,
/// ties to even.
pub open spec fn f64_value(b: nat) -> nat {
    let sh = excess_bits(b);
    if sh == 0 {
        b
    } else {
        let p = pow2n(sh);
        let hi = b / p;
        let lo = b % p;
        let r = if lo > p / 2 || (lo == p / 2 && hi % 2 == 1) {
            hi + 1
        } else {
            hi
        };
        r * p
    }
}

/// `n / q` rounded to nearest, ties to even.
pub open spec fn div_round_even(n: nat, q: nat) -> nat {
    let d = n / q;
    let r = n % q;
    if 2 * r > q || (2 * r == q && d % 2 == 1) {
        d + 1
    } else {
        d
    }
}

/// Which unit a rate is shown in: 0 for B, 1 for KB, 2 for MB, 3 for GB.
/// The rate is divided by 1024 while it is at least 1024, up to GB.
pub open spec fn speed_unit(b: nat) -> nat {
    if b < 1024 {
        0
    } else if b < 1024 * 1024 {
        1
    } else if b < 1024 * 1024 * 1024 {
        2
    } else {
        3
    }
}

/// The name of unit `k`.
pub open spec fn unit_name(k: nat) -> Seq<char> {
    if k == 0 {
        "B"@
    } else if k == 1 {
        "KB"@
    } else if k == 2 {
        "MB"@
    } else {
        "GB"@
    }
}

/// `1024` to the power `k`.
pub open spec fn pow1024(k: nat) -> nat
    decreases k,
{
    if k == 0 {
        1
    } else {
        1024 * pow1024((k - 1) as nat)
    }
}

/// A byte rate as the interface shows it: whole bytes below 1 KB, otherwise
/// the rate (taken as an `f64`) in KB, MB or GB with one decimal, rounded to
/// nearest with ties to even, as `{:.1}` formats it.
pub open spec fn speed_text(b: nat) -> Seq<char> {
    let k = speed_unit(b);
    if k == 0 {
        crate::text::decimal(b) + " B"@
    } else {
        let d = div_round_even(f64_value(b) * 10, pow1024(k));
        crate::text::decimal(d / 10) + "."@ + seq![crate::text::digit_char(d % 10)] + " "@
            + unit_name(k)
    }
}

/// `b as f64`, as an integer.
fn f64_value_exec(b: u64) -> (f: u128)
    ensures
        f == f64_value(b as nat),
        f <= 2 * (u64::MAX as int),
{
    proof {
        reveal_with_fuel(pow2n, 54);
    }
    assert(pow2n(53) == 9007199254740992);
    if b < 9007199254740992 {
        return b as u128;
    }
    let mut t: u64 = b;
    let mut sh: u64 = 0;
    let mut p: u64 = 1;
    while t >= 9007199254740992
        invariant
            p == pow2n(sh as nat),
            t == b / p,
            p * t <= b,
            p >= 1,
            p >= sh + 1,
            t >= 4503599627370496,
            excess_bits(b as nat) == sh + excess_bits(t as nat),
            pow2n(53) == 9007199254740992,
        decreases t,
    {
        assert(p * 2 <= 8192) by (nonlinear_arith)
            requires
                p * t <= b,
                t >= 9007199254740992,
                b <= u64::MAX,
                p >= 1,
        ;
        proof {
            vstd::arithmetic::div_mod::lemma_div_denominator(b as int, p as int, 2);
            assert(p * 2 * (t / 2) <= p * t) by (nonlinear_arith)
                requires
                    p >= 1,
            ;
        }
        t = t / 2;
        sh = sh + 1;
        p = p * 2;
    }
    assert(p <= 4096) by (nonlinear_arith)
        requires
            p * t <= b,
            t >= 4503599627370496,
            b <= u64::MAX,
            p >= 1,
    ;
    let hi = b / p;
    let lo = b % p;
    let r: u64 = if lo > p / 2 || (lo == p / 2 && hi % 2 == 1) {
        assert(hi < u64::MAX) by (nonlinear_arith)
            requires
                hi == b / p,
                p >= 2,
                b <= u64::MAX,
        ;
        hi + 1
    } else {
        hi
    };
    proof {
        assert(sh > 0);
        assert(excess_bits(t as nat) == 0);
        assert(r * p <= 2 * (u64::MAX as int)) by (nonlinear_arith)
            requires
                r <= hi + 1,
                hi == b / p,
                p >= 1,
                p <= 4096,
                b <= u64::MAX,
        ;
    }
    (r as u128) * (p as u128)
}

/// Renders a byte rate (see [`speed_text`]).
pub fn format_speed(bytes_per_sec: u64) -> (s: String)
    ensures
        s@ == speed_text(bytes_per_sec as nat),
{
    let b = bytes_per_sec;
    if b < 1024 {
        let mut s = crate::text::u64_to_decimal(b);
        s.append(" B");
        return s;
    }
    let (k, q, unit): (u64, u128, &str) = if b < 1048576 {
        (1, 1024, "KB")
    } else if b < 1073741824 {
        (2, 1048576, "MB")
    } else {
        (3, 1073741824, "GB")
    };
    proof {
        reveal_with_fuel(pow1024, 4);
    }
    assert(pow1024(1) == 1024 && pow1024(2) == 1048576 && pow1024(3) == 1073741824);
    let f = f64_value_exec(b);
    let n: u128 = f * 10;
    let dq = n / q;
    let rq = n % q;
    let d: u128 = if 2 * rq > q || (2 * rq == q && dq % 2 == 1) {
        dq + 1
    } else {
        dq
    };
    assert(d / 10 <= u64::MAX) by (nonlinear_arith)
        requires
            d <= dq + 1,
            dq == n / q,
            q >= 1024,
            n <= 20 * (u64::MAX as int),
    ;
    let whole = (d / 10) as u64;
    let frac = (d % 10) as u64;
    let mut s = crate::text::u64_to_decimal(whole);
    s.append(".");
    crate::text::string_push(&mut s, crate::text::digit_to_char(frac));
    s.append(" ");
    s.append(unit);
    s
}

// ─── Sampling the tunnel's rate ───────────────────────────────────────────────

/// Seconds between two samples of the counters.
pub const SAMPLE_SECS: u64 = 5;

/// What the rate monitor keeps between samples.
#[derive(Debug)]
pub struct SpeedMonitor {
    pub selected_iface: Option<String>,
    pub previous_stats: NetTable,
}

/// The mathematical value of a [`SpeedMonitor`].
pub struct SpeedMonitorView {
    pub selected_iface: Option<Seq<char>>,
    pub previous_stats: Seq<(Seq<char>, NetStats)>,
}

impl View for SpeedMonitor {
    type V = SpeedMonitorView;

    open spec fn view(&self) -> SpeedMonitorView {
        SpeedMonitorView {
            selected_iface: crate::config::opt_view(self.selected_iface),
            previous_stats: self.previous_stats@,
        }
    }
}

/// The log line announcing the interface the monitor follows.
pub open spec fn monitor_line(iface: Seq<char>) -> Seq<char> {
    "[SPEED] Monitor aktif di interface "@ + iface
}

/// The log line with one sample's rates.
pub open spec fn rate_line(rx: u64, tx: u64, iface: Seq<char>) -> Seq<char> {
    "[SPEED] ↓ "@ + speed_text(rx as nat) + "/s ↑ "@ + speed_text(tx as nat) + "/s ("@ + iface
        + ")"@
}

impl SpeedMonitorView {
    /// The interface to report on: the one followed so far while it is still
    /// listed, otherwise a newly detected one (announced).
    pub open spec fn pick(
        self,
        init: Seq<(Seq<char>, NetStats)>,
        cur: Seq<(Seq<char>, NetStats)>,
    ) -> Option<(Seq<char>, bool)> {
        match self.selected_iface {
            Some(i) if lookup(cur, i) is Some => Some((i, false)),
            _ => match vpn_interface(init, self.previous_stats, cur) {
                Some(i) => Some((i, true)),
                None => None,
            },
        }
    }

    /// The monitor after a sample `cur`.
    pub open spec fn stepped(
        self,
        init: Seq<(Seq<char>, NetStats)>,
        cur: Seq<(Seq<char>, NetStats)>,
    ) -> SpeedMonitorView {
        match self.pick(init, cur) {
            Some((i, _)) => SpeedMonitorView { selected_iface: Some(i), previous_stats: cur },
            None => SpeedMonitorView { previous_stats: cur, ..self },
        }
    }

    /// What a sample `cur` reports.
    pub open spec fn step_events(
        self,
        session_id: u64,
        init: Seq<(Seq<char>, NetStats)>,
        cur: Seq<(Seq<char>, NetStats)>,
    ) -> Seq<crate::state::AppEventView> {
        match self.pick(init, cur) {
            None => seq![],
            Some((i, announce)) => {
                let first = if announce {
                    seq![
                        crate::state::AppEventView::LogLine {
                            session_id,
                            line: monitor_line(i),
                        },
                    ]
                } else {
                    seq![]
                };
                match (lookup(self.previous_stats, i), lookup(cur, i)) {
                    (Some(p), Some(c)) => {
                        let rx = (sat_sub(c.rx_bytes, p.rx_bytes) / SAMPLE_SECS) as u64;
                        let tx = (sat_sub(c.tx_bytes, p.tx_bytes) / SAMPLE_SECS) as u64;
                        let base = lookup_or_zero(init, i);
                        first + seq![
                            crate::state::AppEventView::LogLine {
                                session_id,
                                line: rate_line(rx, tx, i),
                            },
                            crate::state::AppEventView::SpeedUpdate {
                                session_id,
                                interface: i,
                                rx_bps: rx,
                                tx_bps: tx,
                                rx_total: sat_sub(c.rx_bytes, base.rx_bytes),
                                tx_total: sat_sub(c.tx_bytes, base.tx_bytes),
                            },
                        ]
                    },
                    _ => first,
                }
            },
        }
    }
}

impl SpeedMonitor {
    /// A monitor that follows no interface yet, with the counters read when
    /// it starts.
    pub fn new(previous_stats: NetTable) -> (r: SpeedMonitor)
        ensures
            r@ == (SpeedMonitorView { selected_iface: None, previous_stats: previous_stats@ }),
    {
        SpeedMonitor { selected_iface: None, previous_stats }
    }

    /// Takes one sample: picks the interface to report on and reports its
    /// rates over the last sample period and its totals since `initial`.
    pub fn step(&mut self, session_id: u64, current: NetTable, initial: &NetTable) -> (r: Vec<
        crate::state::AppEvent,
    >)
        ensures
            final(self)@ == old(self)@.stepped(initial@, current@),
            crate::state::events_view(r@) == old(self)@.step_events(
                session_id,
                initial@,
                current@,
            ),
    {
        let ghost pre = self@;
        let mut events: Vec<crate::state::AppEvent> = Vec::new();
        let kept = match &self.selected_iface {
            Some(i) => {
                let iv = to_chars(i.as_str());
                if current.contains(&iv) {
                    Some(i.clone())
                } else {
                    None
                }
            },
            None => None,
        };
        let iface: String = match kept {
            Some(i) => i,
            None => match detect_vpn_interface(initial, &self.previous_stats, &current) {
                Some(i) => {
                    events.push(
                        crate::state::AppEvent::LogLine {
                            session_id,
                            line: crate::text::concat2("[SPEED] Monitor aktif di interface ", i.as_str()),
                        },
                    );
                    self.selected_iface = Some(i.clone());
                    i
                },
                None => {
                    self.previous_stats = current;
                    assert(crate::state::events_view(events@) =~= Seq::<crate::state::AppEventView>::empty());
                    return events;
                },
            },
        };
        let ghost first = crate::state::events_view(events@);
        let iv = to_chars(iface.as_str());
        match (self.previous_stats.get(&iv), current.get(&iv)) {
            (Some(p), Some(c)) => {
                let rx = saturating_sub(c.rx_bytes, p.rx_bytes) / SAMPLE_SECS;
                let tx = saturating_sub(c.tx_bytes, p.tx_bytes) / SAMPLE_SECS;
                let rxs = format_speed(rx);
                let txs = format_speed(tx);
                let mut line = crate::text::owned("[SPEED] ↓ ");
                line.append(rxs.as_str());
                line.append("/s ↑ ");
                line.append(txs.as_str());
                line.append("/s (");
                line.append(iface.as_str());
                line.append(")");
                events.push(crate::state::AppEvent::LogLine { session_id, line });
                let base = get_or_zero(initial, &iv);
                events.push(
                    crate::state::AppEvent::SpeedUpdate {
                        session_id,
                        interface: iface.clone(),
                        rx_bps: rx,
                        tx_bps: tx,
                        rx_total: saturating_sub(c.rx_bytes, base.rx_bytes),
                        tx_total: saturating_sub(c.tx_bytes, base.tx_bytes),
                    },
                );
                assert(crate::state::events_view(events@) =~= pre.step_events(
                    session_id,
                    initial@,
                    current@,
                ));
            },
            _ => {
                assert(crate::state::events_view(events@) =~= pre.step_events(
                    session_id,
                    initial@,
                    current@,
                ));
            },
        }
        self.previous_stats = current;
        events
    }
}

// ─── The monitor's loop, step by step ─────────────────────────────────────────

/// The outside work the monitor asks for next.
#[derive(Debug, Clone, Copy, PartialEq, Eq, Structural)]
pub enum MonitorAction {
    /// Sleep for [`SAMPLE_SECS`] seconds, then look at the stop request.
    Sleep,
    /// Read the counters.
    ReadStats,
    /// The monitor is over.
    Stop,
}

/// What the outside work found.
#[derive(Debug)]
pub enum MonitorInput {
    /// The sleep ended; whether stopping was requested.
    Woke { stop: bool },
    /// The counters read, or why they could not be read.
    Read(Result<NetTable, String>),
}

/// The value of a [`MonitorInput`].
pub enum MonitorInputView {
    Woke { stop: bool },
    Read(Result<Seq<(Seq<char>, NetStats)>, Seq<char>>),
}

impl View for MonitorInput {
    type V = MonitorInputView;

    open spec fn view(&self) -> MonitorInputView {
        match self {
            MonitorInput::Woke { stop } => MonitorInputView::Woke { stop: *stop },
            MonitorInput::Read(Ok(t)) => MonitorInputView::Read(Ok(t@)),
            MonitorInput::Read(Err(e)) => MonitorInputView::Read(Err(e@)),
        }
    }
}

/// The debug line when the counters cannot be read.
pub open spec fn read_failed_line(e: Seq<char>) -> Seq<char> {
    "[SPEED] Gagal membaca statistik interface: "@ + e
}

/// One step of the monitor's loop: after a sleep a stop request ends it
/// with nothing sent, else the counters are read; a failed read ends it
/// with one debug line; a sample is reported (see
/// [`SpeedMonitorView::step_events`]) and the monitor sleeps again.
pub open spec fn tick_next(
    m: SpeedMonitorView,
    session_id: u64,
    inp: MonitorInputView,
    init: Seq<(Seq<char>, NetStats)>,
) -> (SpeedMonitorView, Seq<crate::state::AppEventView>, MonitorAction) {
    match inp {
        MonitorInputView::Woke { stop } => (
            m,
            seq![],
            if stop {
                MonitorAction::Stop
            } else {
                MonitorAction::ReadStats
            },
        ),
        MonitorInputView::Read(Err(e)) => (
            m,
            seq![crate::state::AppEventView::DebugLog(read_failed_line(e))],
            MonitorAction::Stop,
        ),
        MonitorInputView::Read(Ok(cur)) => (
            m.stepped(init, cur),
            m.step_events(session_id, init, cur),
            MonitorAction::Sleep,
        ),
    }
}

/// A run of the loop over the inputs in order; inputs after a step that
/// stopped it change nothing. Also says whether it stopped.
pub open spec fn run_monitor(
    m: SpeedMonitorView,
    session_id: u64,
    init: Seq<(Seq<char>, NetStats)>,
    ins: Seq<MonitorInputView>,
) -> (SpeedMonitorView, Seq<crate::state::AppEventView>, bool)
    decreases ins.len(),
{
    if ins.len() == 0 {
        (m, seq![], false)
    } else {
        let (m1, e1, stopped) = run_monitor(m, session_id, init, ins.drop_last());
        if stopped {
            (m1, e1, true)
        } else {
            let (m2, e2, a) = tick_next(m1, session_id, ins.last(), init);
            (m2, e1 + e2, a == MonitorAction::Stop)
        }
    }
}

impl SpeedMonitor {
    /// One step of the monitor's loop (see [`tick_next`]): the events to
    /// send, in order, and the outside work to do next.
    pub fn tick(&mut self, session_id: u64, input: MonitorInput, initial: &NetTable) -> (r: (
        Vec<crate::state::AppEvent>,
        MonitorAction,
    ))
        ensures
            (final(self)@, crate::state::events_view(r.0@), r.1) == tick_next(
                old(self)@,
                session_id,
                input@,
                initial@,
            ),
    {
        match input {
            MonitorInput::Woke { stop } => {
                let events: Vec<crate::state::AppEvent> = Vec::new();
                assert(crate::state::events_view(events@) =~= Seq::<crate::state::AppEventView>::empty());
                (events, if stop {
                    MonitorAction::Stop
                } else {
                    MonitorAction::ReadStats
                })
            },
            MonitorInput::Read(Err(e)) => {
                let mut events: Vec<crate::state::AppEvent> = Vec::new();
                events.push(
                    crate::state::AppEvent::DebugLog(
                        crate::text::concat2("[SPEED] Gagal membaca statistik interface: ", e.as_str()),
                    ),
                );
                assert(crate::state::events_view(events@) =~= seq![
                    crate::state::AppEventView::DebugLog(read_failed_line(e@)),
                ]);
                (events, MonitorAction::Stop)
            },
            MonitorInput::Read(Ok(cur)) => {
                let events = self.step(session_id, cur, initial);
                (events, MonitorAction::Sleep)
            },
        }
    }
}

/// Once the monitor's loop has stopped, nothing that comes after changes
/// what it did: no more events, and the monitor stays as it was.
pub proof fn law_monitor_stop_is_final(
    m: SpeedMonitorView,
    session_id: u64,
    init: Seq<(Seq<char>, NetStats)>,
    ins: Seq<MonitorInputView>,
    more: Seq<MonitorInputView>,
)
    requires
        run_monitor(m, session_id, init, ins).2,
    ensures
        run_monitor(m, session_id, init, ins + more) == run_monitor(m, session_id, init, ins),
    decreases more.len(),
{
    if more.len() > 0 {
        law_monitor_stop_is_final(m, session_id, init, ins, more.drop_last());
        assert((ins + more).drop_last() =~= ins + more.drop_last());
    } else {
        assert(ins + more =~= ins);
    }
}

/// A stop request seen after a sleep ends the loop with nothing sent; a
/// failed read ends it with its one debug line; a sample keeps it going.
pub proof fn law_monitor_stops(
    m: SpeedMonitorView,
    session_id: u64,
    init: Seq<(Seq<char>, NetStats)>,
    cur: Seq<(Seq<char>, NetStats)>,
    e: Seq<char>,
)
    ensures
        tick_next(m, session_id, MonitorInputView::Woke { stop: true }, init) == (
            m,
            Seq::<crate::state::AppEventView>::empty(),
            MonitorAction::Stop,
        ),
        tick_next(m, session_id, MonitorInputView::Read(Err(e)), init).2 == MonitorAction::Stop,
        tick_next(m, session_id, MonitorInputView::Read(Err(e)), init).1 == seq![
            crate::state::AppEventView::DebugLog(read_failed_line(e)),
        ],
        tick_next(m, session_id, MonitorInputView::Read(Ok(cur)), init).2 == MonitorAction::Sleep,
{
}

} // verus!
