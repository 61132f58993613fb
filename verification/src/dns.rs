//! Domain-name normalization and reverse-DNS (PTR) names: the `in-addr.arpa`
//! / `ip6.arpa` name of an address, and the reverse zone of a network prefix.

use vstd::prelude::*;
use crate::text::{
    all_chars, is_ascii_upper, is_dec_digit, lemma_dec_round_trip, lemma_hex_round_trip,
    lemma_join_all_chars, lemma_join_last, lemma_lower_identity, lemma_split_join, has_char,
    ascii_lower, ascii_lower_seq, ascii_lowercase, chars_of, dec_u8, ends_with, ends_with_vec,
    hex_digit, hex_digit_lower, hex_value, join_vec, join_with, parse_hex_char, parse_u8_dec,
    parse_u8_vec, prefix_vec, push_dec_u8, split_on, split_vec, string_of, trim_end_char,
    trim_end_char_vec, views,
};

verus! {

/// An IP address as its network-order bytes.
#[derive(Clone, Copy, Debug, PartialEq, Eq)]
pub enum IpAddress {
    V4([u8; 4]),
    V6([u8; 16]),
}

/// The bytes of an address, by family.
pub enum IpAddressView {
    V4(Seq<u8>),
    V6(Seq<u8>),
}

impl View for IpAddress {
    type V = IpAddressView;

    open spec fn view(&self) -> IpAddressView {
        match self {
            IpAddress::V4(a) => IpAddressView::V4(a@),
            IpAddress::V6(a) => IpAddressView::V6(a@),
        }
    }
}

/// The number of bits of an address of this family.
pub open spec fn max_prefix(a: IpAddressView) -> nat {
    match a {
        IpAddressView::V4(_) => 32,
        IpAddressView::V6(_) => 128,
    }
}

/// A network prefix: an address and a prefix length no longer than the
/// address. Built by [`IpPrefix::new`], which refuses a longer length.
pub struct IpPrefix {
    addr: IpAddress,
    prefix: u8,
}

/// An address with a prefix length.
pub struct IpPrefixView {
    pub addr: IpAddressView,
    pub prefix: nat,
}

impl View for IpPrefix {
    type V = IpPrefixView;

    closed spec fn view(&self) -> IpPrefixView {
        IpPrefixView { addr: self.addr@, prefix: self.prefix as nat }
    }
}

impl IpPrefix {
    #[verifier::type_invariant]
    spec fn well_formed(self) -> bool {
        self.prefix <= max_prefix(self.addr@)
    }

    /// The prefix `addr/prefix`; `None` when `prefix` exceeds the address width.
    pub fn new(addr: IpAddress, prefix: u8) -> (res: Option<IpPrefix>)
        ensures
            res is Some <==> prefix <= max_prefix(addr@),
            res matches Some(p) ==> p@ == (IpPrefixView { addr: addr@, prefix: prefix as nat }),
    {
        let max: u8 = match addr {
            IpAddress::V4(_) => 32,
            IpAddress::V6(_) => 128,
        };
        if prefix <= max {
            Some(IpPrefix { addr, prefix })
        } else {
            None
        }
    }

    pub fn addr(&self) -> (a: IpAddress)
        ensures
            a@ == self@.addr,
    {
        self.addr
    }

    pub fn prefix(&self) -> (n: u8)
        ensures
            n as nat == self@.prefix,
    {
        self.prefix
    }
}

/// `in-addr.arpa`
pub open spec fn in_addr_arpa() -> Seq<char> {
    seq!['i', 'n', '-', 'a', 'd', 'd', 'r', '.', 'a', 'r', 'p', 'a']
}

/// `ip6.arpa`
pub open spec fn ip6_arpa() -> Seq<char> {
    seq!['i', 'p', '6', '.', 'a', 'r', 'p', 'a']
}

/// A domain name with trailing dots removed and ASCII letters lower-cased.
pub open spec fn normalized(name: Seq<char>) -> Seq<char> {
    ascii_lower_seq(trim_end_char(name, '.'))
}

/// Strips the trailing dots of a domain name and folds it to ASCII lower case.
pub fn normalize_domain(name: &str) -> (res: String)
    ensures
        res@ == normalized(name@),
{
    let chars = chars_of(name);
    let trimmed = trim_end_char_vec(&chars, '.');
    let lower = ascii_lowercase(&trimmed);
    string_of(&lower)
}

proof fn lemma_trimmed_end(s: Seq<char>, c: char)
    ensures
        trim_end_char(s, c).len() == 0 || trim_end_char(s, c).last() != c,
    decreases s.len(),
{
    if s.len() > 0 && s.last() == c {
        lemma_trimmed_end(s.drop_last(), c);
    }
}

proof fn lemma_lower_char(c: char)
    ensures
        !is_ascii_upper(ascii_lower(c)),
        ascii_lower(c) == '.' <==> c == '.',
{
    if is_ascii_upper(c) {
        let u = (c as u32) + 32;
        assert(97 <= u <= 122);
        assert((u as char) as u32 == u);
    }
}

/// Normalizing a domain name twice gives what normalizing it once gives.
pub proof fn lemma_normalize_idempotent(name: Seq<char>)
    ensures
        normalized(normalized(name)) == normalized(name),
{
    let t = trim_end_char(name, '.');
    let l = ascii_lower_seq(t);
    lemma_trimmed_end(name, '.');
    if l.len() > 0 {
        lemma_lower_char(t.last());
        assert(l.last() == ascii_lower(t.last()));
    }
    assert(trim_end_char(l, '.') == l);
    assert forall|i: int| 0 <= i < l.len() implies !is_ascii_upper(#[trigger] l[i]) by {
        lemma_lower_char(t[i]);
    }
    assert(all_chars(l, |c: char| !is_ascii_upper(c)));
    lemma_lower_identity(l);
}

/// A PTR query name points at the same address as its normalized form:
/// letter case and trailing dots never change the answer.
pub proof fn lemma_arpa_ignores_case_and_trailing_dots(qname: Seq<char>)
    ensures
        arpa_address(normalized(qname)) == arpa_address(qname),
{
    lemma_normalize_idempotent(qname);
}

/// ASCII upper-casing of one character (`char::to_ascii_uppercase`); other
/// characters are unchanged.
pub open spec fn ascii_upper(c: char) -> char {
    if 'a' <= c && c <= 'z' {
        ((c as u32) - 32) as char
    } else {
        c
    }
}

/// ASCII upper-casing of a character sequence (`str::to_ascii_uppercase`).
pub open spec fn ascii_upper_seq(s: Seq<char>) -> Seq<char> {
    s.map_values(|c: char| ascii_upper(c))
}

proof fn lemma_upper_char(c: char)
    ensures
        ascii_lower(ascii_upper(c)) == ascii_lower(c),
        ascii_upper(c) == '.' <==> c == '.',
{
    if 'a' <= c && c <= 'z' {
        let u = (c as u32) - 32;
        assert(65 <= u <= 90);
        assert((u as char) as u32 == u);
        assert(((u + 32) as char) as u32 == u + 32);
        assert((u + 32) as char == c);
    }
}

proof fn lemma_trim_upper(s: Seq<char>)
    ensures
        trim_end_char(ascii_upper_seq(s), '.') == ascii_upper_seq(trim_end_char(s, '.')),
    decreases s.len(),
{
    if s.len() > 0 {
        let u = ascii_upper_seq(s);
        lemma_upper_char(s.last());
        assert(u.last() == ascii_upper(s.last()));
        assert(u.drop_last() =~= ascii_upper_seq(s.drop_last()));
        lemma_trim_upper(s.drop_last());
    }
}

/// A PTR query name points at the same address once its ASCII letters are
/// upper-cased.
pub proof fn lemma_arpa_ignores_upper_case(qname: Seq<char>)
    ensures
        arpa_address(ascii_upper_seq(qname)) == arpa_address(qname),
{
    lemma_trim_upper(qname);
    let t = trim_end_char(qname, '.');
    assert forall|i: int| 0 <= i < t.len() implies #[trigger] ascii_lower_seq(ascii_upper_seq(t))[i]
        == ascii_lower_seq(t)[i] by {
        lemma_upper_char(t[i]);
    }
    assert(ascii_lower_seq(ascii_upper_seq(t)) =~= ascii_lower_seq(t));
    assert(normalized(ascii_upper_seq(qname)) == normalized(qname));
}

/// The four address bytes named by the labels of an `in-addr.arpa` name,
/// least significant label first.
pub open spec fn v4_labels_valid(labels: Seq<Seq<char>>) -> bool {
    labels.len() == 4 && forall|k: int| 0 <= k < 4 ==> (#[trigger] parse_u8_dec(labels[k])) is Some
}

pub open spec fn v4_from_labels(labels: Seq<Seq<char>>) -> Seq<u8> {
    Seq::new(4, |k: int| parse_u8_dec(labels[3 - k])->0)
}

/// Thirty-two single hexadecimal digits.
pub open spec fn v6_labels_valid(labels: Seq<Seq<char>>) -> bool {
    labels.len() == 32 && forall|k: int|
        0 <= k < 32 ==> (#[trigger] labels[k]).len() == 1 && hex_value(labels[k][0]) is Some
}

pub open spec fn nibble_of_label(labels: Seq<Seq<char>>, k: int) -> int {
    hex_value(labels[k][0])->0 as int
}

pub open spec fn v6_from_labels(labels: Seq<Seq<char>>) -> Seq<u8> {
    Seq::new(
        16,
        |j: int| (nibble_of_label(labels, 31 - 2 * j) * 16 + nibble_of_label(labels, 30 - 2 * j)) as u8,
    )
}

/// The address a reverse-DNS query name points at, if it is a well-formed
/// `in-addr.arpa` or `ip6.arpa` name (after trailing dots are removed and
/// letters folded to lower case).
pub open spec fn arpa_address(qname: Seq<char>) -> Option<IpAddressView> {
    let name = normalized(qname);
    let sfx4 = seq!['.'] + in_addr_arpa();
    let sfx6 = seq!['.'] + ip6_arpa();
    if ends_with(name, sfx4) {
        let labels = split_on(name.take(name.len() - sfx4.len()), '.');
        if v4_labels_valid(labels) {
            Some(IpAddressView::V4(v4_from_labels(labels)))
        } else {
            None
        }
    } else if ends_with(name, sfx6) {
        let labels = split_on(name.take(name.len() - sfx6.len()), '.');
        if v6_labels_valid(labels) {
            Some(IpAddressView::V6(v6_from_labels(labels)))
        } else {
            None
        }
    } else {
        None
    }
}

/// Parses a reverse-DNS (PTR) query name into the address it points at;
/// `None` for anything that is not a well-formed arpa name.
pub fn arpa_qname_to_ip(qname: &str) -> (res: Option<IpAddress>)
    ensures
        match res {
            Some(a) => arpa_address(qname@) == Some(a@),
            None => arpa_address(qname@) is None,
        },
{
    let chars = chars_of(qname);
    let trimmed = trim_end_char_vec(&chars, '.');
    let name = ascii_lowercase(&trimmed);
    let sfx4 = chars_of(".in-addr.arpa");
    let sfx6 = chars_of(".ip6.arpa");
    proof {
        reveal_strlit(".in-addr.arpa");
        reveal_strlit(".ip6.arpa");
        assert(sfx4@ =~= seq!['.'] + in_addr_arpa());
        assert(sfx6@ =~= seq!['.'] + ip6_arpa());
    }
    if ends_with_vec(&name, &sfx4) {
        let reversed = prefix_vec(&name, name.len() - sfx4.len());
        let labels = split_vec(&reversed, '.');
        let ghost ls = views(labels@);
        if labels.len() != 4 {
            return None;
        }
        let b0 = match parse_u8_vec(&labels[3]) {
            Some(b) => b,
            None => {
                assert(ls[3] == labels@[3]@);
                assert(!v4_labels_valid(ls));
                return None;
            },
        };
        let b1 = match parse_u8_vec(&labels[2]) {
            Some(b) => b,
            None => {
                assert(ls[2] == labels@[2]@);
                assert(!v4_labels_valid(ls));
                return None;
            },
        };
        let b2 = match parse_u8_vec(&labels[1]) {
            Some(b) => b,
            None => {
                assert(ls[1] == labels@[1]@);
                assert(!v4_labels_valid(ls));
                return None;
            },
        };
        let b3 = match parse_u8_vec(&labels[0]) {
            Some(b) => b,
            None => {
                assert(ls[0] == labels@[0]@);
                assert(!v4_labels_valid(ls));
                return None;
            },
        };
        let addr: [u8; 4] = [b0, b1, b2, b3];
        proof {
            assert(ls[0] == labels@[0]@);
            assert(ls[1] == labels@[1]@);
            assert(ls[2] == labels@[2]@);
            assert(ls[3] == labels@[3]@);
            assert(v4_labels_valid(ls));
            assert(addr@ =~= v4_from_labels(ls));
        }
        Some(IpAddress::V4(addr))
    } else if ends_with_vec(&name, &sfx6) {
        let reversed = prefix_vec(&name, name.len() - sfx6.len());
        let labels = split_vec(&reversed, '.');
        let ghost ls = views(labels@);
        if labels.len() != 32 {
            return None;
        }
        assert(arpa_address(qname@) == (if v6_labels_valid(ls) {
            Some(IpAddressView::V6(v6_from_labels(ls)))
        } else {
            None
        }));
        let mut bytes: Vec<u8> = Vec::new();
        let mut j: usize = 0;
        while j < 16
            invariant
                j <= 16,
                labels.len() == 32,
                ls == views(labels@),
                arpa_address(qname@) == (if v6_labels_valid(ls) {
                    Some(IpAddressView::V6(v6_from_labels(ls)))
                } else {
                    None
                }),
                bytes@.len() == j,
                forall|k: int|
                    31 - 2 * j < k < 32 ==> (#[trigger] ls[k]).len() == 1 && hex_value(ls[k][0]) is Some,
                forall|m: int|
                    0 <= m < j ==> bytes@[m] == (nibble_of_label(ls, 31 - 2 * m) * 16
                        + nibble_of_label(ls, 30 - 2 * m)) as u8,
            decreases 16 - j,
        {
            let hi_label = &labels[31 - 2 * j];
            let lo_label = &labels[30 - 2 * j];
            assert(ls[31 - 2 * j] == hi_label@);
            assert(ls[30 - 2 * j] == lo_label@);
            if hi_label.len() != 1 || lo_label.len() != 1 {
                return None;
            }
            let hi = match parse_hex_char(hi_label[0]) {
                Some(v) => v,
                None => { return None; },
            };
            let lo = match parse_hex_char(lo_label[0]) {
                Some(v) => v,
                None => { return None; },
            };
            assert(hi < 16 && lo < 16);
            bytes.push(hi * 16 + lo);
            j = j + 1;
        }
        let addr: [u8; 16] = [
            bytes[0], bytes[1], bytes[2], bytes[3], bytes[4], bytes[5], bytes[6], bytes[7],
            bytes[8], bytes[9], bytes[10], bytes[11], bytes[12], bytes[13], bytes[14], bytes[15],
        ];
        proof {
            assert(v6_labels_valid(ls));
            assert(addr@ =~= v6_from_labels(ls));
        }
        Some(IpAddress::V6(addr))
    } else {
        None
    }
}

/// The `k`-th nibble of an address, most significant first.
pub open spec fn nibble(a: Seq<u8>, k: int) -> int {
    if k % 2 == 0 {
        a[k / 2] as int / 16
    } else {
        a[k / 2] as int % 16
    }
}

/// The labels of the reverse zone of a prefix: the covered octets (IPv4) or
/// nibbles (IPv6), least significant first, then the arpa suffix.
pub open spec fn reverse_zone_labels(p: IpPrefixView) -> Seq<Seq<char>> {
    match p.addr {
        IpAddressView::V4(a) => {
            let n = (p.prefix / 8) as int;
            Seq::new(n as nat, |i: int| dec_u8(a[n - 1 - i])).push(in_addr_arpa())
        },
        IpAddressView::V6(a) => {
            let n = (p.prefix / 4) as int;
            Seq::new(n as nat, |i: int| seq![hex_digit_lower(nibble(a, n - 1 - i))]).push(ip6_arpa())
        },
    }
}

/// Whether the prefix length is a positive multiple of a whole label
/// (8 bits for IPv4, 4 for IPv6).
pub open spec fn label_aligned(p: IpPrefixView) -> bool {
    match p.addr {
        IpAddressView::V4(_) => p.prefix != 0 && p.prefix % 8 == 0,
        IpAddressView::V6(_) => p.prefix != 0 && p.prefix % 4 == 0,
    }
}

/// The reverse-DNS zone name of a prefix, for label-aligned prefixes.
pub open spec fn reverse_zone(p: IpPrefixView) -> Option<Seq<char>> {
    if label_aligned(p) {
        Some(join_with(reverse_zone_labels(p), '.'))
    } else {
        None
    }
}

/// The reverse zone of a prefix depends only on its length and on the
/// octets (IPv4) or nibbles (IPv6) it covers: host bits never show, so a
/// prefix and its network address give the same zone.
pub proof fn lemma_reverse_zone_ignores_host_bits(p: IpPrefixView, q: IpPrefixView)
    requires
        p.prefix == q.prefix,
        match (p.addr, q.addr) {
            (IpAddressView::V4(a), IpAddressView::V4(b)) => forall|i: int| 0 <= i < p.prefix / 8 ==> a[i] == b[i],
            (IpAddressView::V6(a), IpAddressView::V6(b)) => forall|k: int|
                0 <= k < p.prefix / 4 ==> #[trigger] nibble(a, k) == nibble(b, k),
            _ => false,
        },
    ensures
        reverse_zone(p) == reverse_zone(q),
{
    match (p.addr, q.addr) {
        (IpAddressView::V4(a), IpAddressView::V4(b)) => {
            let n = (p.prefix / 8) as int;
            assert(Seq::new(n as nat, |i: int| dec_u8(a[n - 1 - i])) =~= Seq::new(n as nat, |i: int| dec_u8(b[n - 1 - i])));
        },
        (IpAddressView::V6(a), IpAddressView::V6(b)) => {
            let n = (p.prefix / 4) as int;
            assert forall|i: int| 0 <= i < n implies #[trigger] nibble(a, n - 1 - i) == nibble(b, n - 1 - i) by {
                let k = n - 1 - i;
                assert(nibble(a, k) == nibble(b, k));
            }
            assert(Seq::new(n as nat, |i: int| seq![hex_digit_lower(nibble(a, n - 1 - i))]) =~= Seq::new(
                n as nat,
                |i: int| seq![hex_digit_lower(nibble(b, n - 1 - i))],
            ));
        },
        _ => {},
    }
    assert(reverse_zone_labels(p) =~= reverse_zone_labels(q));
}

/// Builds the reverse-DNS zone name for a network prefix: the octets (IPv4)
/// or nibbles (IPv6) the prefix covers, in reverse, under `in-addr.arpa` /
/// `ip6.arpa`. `None` for a prefix that is not octet- or nibble-aligned.
pub fn cidr_to_reverse_zone(prefix: &IpPrefix) -> (res: Option<String>)
    ensures
        res is Some <==> label_aligned(prefix@),
        match res {
            Some(z) => reverse_zone(prefix@) == Some(z@),
            None => reverse_zone(prefix@) is None,
        },
{
    proof {
        use_type_invariant(prefix);
    }
    let bits = prefix.prefix();
    let addr = prefix.addr();
    let ghost pv = prefix@;
    let mut parts: Vec<Vec<char>> = Vec::new();
    match addr {
        IpAddress::V4(octets) => {
            if bits == 0 || bits % 8 != 0 {
                return None;
            }
            let n: usize = (bits / 8) as usize;
            let ghost a = octets@;
            let mut i: usize = 0;
            while i < n
                invariant
                    n <= 4,
                    a == octets@,
                    i <= n,
                    views(parts@) =~= Seq::new(i as nat, |k: int| dec_u8(a[n - 1 - k])),
                decreases n - i,
            {
                let mut label: Vec<char> = Vec::new();
                push_dec_u8(&mut label, octets[n - 1 - i]);
                assert(label@ =~= dec_u8(a[n - 1 - i]));
                let ghost before = views(parts@);
                parts.push(label);
                assert(views(parts@) =~= before.push(dec_u8(a[n - 1 - i])));
                i = i + 1;
            }
            let sfx = chars_of("in-addr.arpa");
            proof {
                reveal_strlit("in-addr.arpa");
                assert(sfx@ =~= in_addr_arpa());
            }
            parts.push(sfx);
            assert(views(parts@) =~= reverse_zone_labels(pv));
        },
        IpAddress::V6(octets) => {
            if bits == 0 || bits % 4 != 0 {
                return None;
            }
            let n: usize = (bits / 4) as usize;
            let ghost a = octets@;
            let mut i: usize = 0;
            while i < n
                invariant
                    n <= 32,
                    a == octets@,
                    i <= n,
                    views(parts@) =~= Seq::new(
                        i as nat,
                        |k: int| seq![hex_digit_lower(nibble(a, n - 1 - k))],
                    ),
                decreases n - i,
            {
                let k = n - 1 - i;
                let byte = octets[k / 2];
                let v: u8 = if k % 2 == 0 { byte / 16 } else { byte % 16 };
                let mut label: Vec<char> = Vec::new();
                label.push(hex_digit(v));
                assert(label@ =~= seq![hex_digit_lower(nibble(a, n - 1 - i))]);
                let ghost before = views(parts@);
                parts.push(label);
                assert(views(parts@) =~= before.push(seq![hex_digit_lower(nibble(a, n - 1 - i))]));
                i = i + 1;
            }
            let sfx = chars_of("ip6.arpa");
            proof {
                reveal_strlit("ip6.arpa");
                assert(sfx@ =~= ip6_arpa());
            }
            parts.push(sfx);
            assert(views(parts@) =~= reverse_zone_labels(pv));
        },
    }
    let joined = join_vec(&parts, '.');
    Some(string_of(&joined))
}


/// Characters that never change under lower-casing and are never a dot.
pub open spec fn plain_label_char(c: char) -> bool {
    !is_ascii_upper(c) && c != '.'
}

proof fn lemma_dec_label(b: u8)
    ensures
        all_chars(dec_u8(b), |c: char| plain_label_char(c)),
        parse_u8_dec(dec_u8(b)) == Some(b),
{
    lemma_dec_round_trip(b);
    let s = dec_u8(b);
    assert forall|i: int| 0 <= i < s.len() implies plain_label_char(#[trigger] s[i]) by {
        assert(is_dec_digit(s[i]));
    }
}

proof fn lemma_hex_label(v: int)
    requires
        0 <= v < 16,
    ensures
        all_chars(seq![hex_digit_lower(v)], |c: char| plain_label_char(c)),
        hex_value(hex_digit_lower(v)) == Some(v as u8),
{
    lemma_hex_round_trip(v);
    let s = seq![hex_digit_lower(v)];
    assert forall|i: int| 0 <= i < s.len() implies plain_label_char(#[trigger] s[i]) by {
        assert(s[i] == hex_digit_lower(v));
    }
}

/// The parts of a reverse zone name: labels then suffix, joined by dots.
proof fn lemma_zone_shape(labels: Seq<Seq<char>>, suffix: Seq<char>)
    requires
        labels.len() >= 1,
        suffix.len() >= 1,
        suffix.last() == 'a',
        all_chars(suffix, |c: char| !is_ascii_upper(c)),
        forall|i: int| 0 <= i < labels.len() ==> all_chars(#[trigger] labels[i], |c: char| plain_label_char(c)),
    ensures
        ({
            let z = join_with(labels.push(suffix), '.');
            let sfx = seq!['.'] + suffix;
            &&& normalized(z) == z
            &&& normalized(z.push('.')) == z
            &&& ends_with(z, sfx)
            &&& split_on(z.take(z.len() - sfx.len()), '.') == labels
        }),
{
    let all = labels.push(suffix);
    let z = join_with(all, '.');
    let j = join_with(labels, '.');
    let sfx = seq!['.'] + suffix;
    assert(all.drop_last() =~= labels);
    lemma_join_last(all, '.');
    assert(z == j.push('.') + suffix);
    // no upper-case letters anywhere
    let up = |c: char| !is_ascii_upper(c);
    assert forall|i: int| 0 <= i < all.len() implies all_chars(#[trigger] all[i], up) by {
        if i < labels.len() {
            assert(all[i] == labels[i]);
            assert forall|k: int| 0 <= k < all[i].len() implies up(#[trigger] all[i][k]) by {
                assert(all_chars(labels[i], |c: char| plain_label_char(c)));
                assert(plain_label_char(labels[i][k]));
            }
        } else {
            assert(all[i] == suffix);
        }
    }
    lemma_join_all_chars(all, '.', up);
    lemma_lower_identity(z);
    // trailing characters
    assert(z.last() == suffix.last()) by {
        assert(z[z.len() - 1] == suffix[suffix.len() - 1]);
    }
    assert(trim_end_char(z, '.') == z);
    assert(z.push('.').drop_last() =~= z);
    assert(trim_end_char(z.push('.'), '.') == z);
    // the suffix
    assert(z.subrange(z.len() - sfx.len(), z.len() as int) =~= sfx);
    assert(z.take(z.len() - sfx.len()) =~= j);
    // the labels
    assert forall|i: int| 0 <= i < labels.len() implies !has_char(#[trigger] labels[i], '.') by {
        assert(all_chars(labels[i], |c: char| plain_label_char(c)));
        if has_char(labels[i], '.') {
            let k = choose|k: int| 0 <= k < labels[i].len() && labels[i][k] == '.';
            assert(plain_label_char(labels[i][k]));
        }
    }
    lemma_split_join(labels, '.');
}

/// The reverse zone of a host prefix (a /32 or a /128), read back as a PTR
/// query name, with or without the trailing root dot, names the host's address.
pub proof fn lemma_reverse_zone_names_host(p: IpPrefix)
    requires
        p@.prefix == max_prefix(p@.addr),
    ensures
        reverse_zone(p@) is Some,
        arpa_address(reverse_zone(p@)->0) == Some(p@.addr),
        arpa_address(reverse_zone(p@)->0.push('.')) == Some(p@.addr),
        arpa_address(ascii_upper_seq(reverse_zone(p@)->0)) == Some(p@.addr),
{
    let pv = p@;
    lemma_arpa_ignores_upper_case(reverse_zone(p@)->0);
    match p.addr {
        IpAddress::V4(arr) => {
            let a = arr@;
            let labels = Seq::new(4, |i: int| dec_u8(a[3 - i]));
            assert(reverse_zone_labels(pv) =~= labels.push(in_addr_arpa()));
            assert forall|i: int| 0 <= i < labels.len() implies all_chars(
                #[trigger] labels[i],
                |c: char| plain_label_char(c),
            ) by {
                lemma_dec_label(a[3 - i]);
            }
            lemma_zone_shape(labels, in_addr_arpa());
            let z = join_with(labels.push(in_addr_arpa()), '.');
            assert(reverse_zone(pv) == Some(z));
            assert(!ends_with(z, seq!['.'] + in_addr_arpa()) ==> false);
            assert forall|k: int| 0 <= k < 4 implies (#[trigger] parse_u8_dec(labels[k])) is Some by {
                lemma_dec_label(a[3 - k]);
            }
            assert forall|k: int| 0 <= k < 4 implies v4_from_labels(labels)[k] == a[k] by {
                lemma_dec_label(a[k]);
                assert(labels[3 - k] == dec_u8(a[k]));
            }
            assert(v4_from_labels(labels) =~= a);
        },
        IpAddress::V6(arr) => {
            let a = arr@;
            let labels = Seq::new(32, |i: int| seq![hex_digit_lower(nibble(a, 31 - i))]);
            assert(reverse_zone_labels(pv) =~= labels.push(ip6_arpa()));
            assert forall|i: int| 0 <= i < labels.len() implies all_chars(
                #[trigger] labels[i],
                |c: char| plain_label_char(c),
            ) by {
                lemma_hex_label(nibble(a, 31 - i));
            }
            lemma_zone_shape(labels, ip6_arpa());
            let z = join_with(labels.push(ip6_arpa()), '.');
            assert(reverse_zone(pv) == Some(z));
            // an ip6.arpa name is not an in-addr.arpa name
            let sfx4 = seq!['.'] + in_addr_arpa();
            assert(!ends_with(z, sfx4)) by {
                assert(z.subrange(z.len() - 8, z.len() as int) =~= ip6_arpa());
                if ends_with(z, sfx4) {
                    assert(z[z.len() - 8] == sfx4[5]);
                }
            }
            assert forall|k: int| 0 <= k < 32 implies (#[trigger] labels[k]).len() == 1 && hex_value(
                labels[k][0],
            ) is Some by {
                lemma_hex_label(nibble(a, 31 - k));
            }
            assert forall|j: int| 0 <= j < 16 implies v6_from_labels(labels)[j] == a[j] by {
                lemma_hex_label(nibble(a, 2 * j));
                lemma_hex_label(nibble(a, 2 * j + 1));
                assert(labels[31 - 2 * j][0] == hex_digit_lower(nibble(a, 2 * j)));
                assert(labels[30 - 2 * j][0] == hex_digit_lower(nibble(a, 2 * j + 1)));
                assert(nibble(a, 2 * j) == a[j] as int / 16);
                assert(nibble(a, 2 * j + 1) == a[j] as int % 16);
            }
            assert(v6_from_labels(labels) =~= a);
        },
    }
}

/// Which reverse-zone maintenance a network-segment change calls for: the
/// zone of a created segment is ensured, that of a deleted one removed.
#[derive(Clone, Copy, Debug, PartialEq, Eq, Structural)]
pub enum ReverseZoneOp {
    Ensure,
    Remove,
}

/// What to do with a reverse zone once the live domains carrying its name
/// have been looked up.
#[derive(Clone, Copy, Debug, PartialEq, Eq, Structural)]
pub enum ZoneDecision {
    /// Leave the domains as they are.
    Nothing,
    /// Create a domain with the zone's name.
    Create,
    /// Soft-delete every domain that was found.
    DeleteFound,
}

/// The decision for `op` when `live` domains carry the zone's name:
/// ensuring creates the zone only when none is live (domain names are not
/// unique, so a second segment of the same prefix must not duplicate it);
/// removing deletes whatever is live, and nothing once it is gone.
pub open spec fn zone_decision(op: ReverseZoneOp, live: nat) -> ZoneDecision {
    match op {
        ReverseZoneOp::Ensure => if live == 0 {
            ZoneDecision::Create
        } else {
            ZoneDecision::Nothing
        },
        ReverseZoneOp::Remove => if live == 0 {
            ZoneDecision::Nothing
        } else {
            ZoneDecision::DeleteFound
        },
    }
}

/// Decides the reverse-zone maintenance of a prefix whose zone name has
/// `live` live domains. A prefix without a zone ([`cidr_to_reverse_zone`]
/// gives `None`) is skipped before any lookup.
pub fn decide_reverse_zone(op: ReverseZoneOp, live: usize) -> (r: ZoneDecision)
    ensures
        r == zone_decision(op, live as nat),
{
    match op {
        ReverseZoneOp::Ensure => {
            if live == 0 {
                ZoneDecision::Create
            } else {
                ZoneDecision::Nothing
            }
        },
        ReverseZoneOp::Remove => {
            if live == 0 {
                ZoneDecision::Nothing
            } else {
                ZoneDecision::DeleteFound
            }
        },
    }
}

/// Ensuring a zone is idempotent and removing undoes it: once an ensure has
/// created the zone (one live domain), a second ensure does nothing and a
/// removal deletes it; once a removal has deleted every live domain, a
/// second removal deletes nothing.
pub proof fn lemma_reverse_zone_round_trip(live: nat)
    ensures
        zone_decision(ReverseZoneOp::Ensure, live) == ZoneDecision::Create ==> zone_decision(
            ReverseZoneOp::Ensure,
            live + 1,
        ) == ZoneDecision::Nothing && zone_decision(ReverseZoneOp::Remove, live + 1) == ZoneDecision::DeleteFound,
        zone_decision(ReverseZoneOp::Remove, live) == ZoneDecision::DeleteFound ==> zone_decision(
            ReverseZoneOp::Remove,
            0,
        ) == ZoneDecision::Nothing,
{
}

} // verus!
