use vstd::prelude::*;
use crate::addr::{bytes_dup, bytes_eq};
use crate::errors::ApiError;

verus! {

/// One protocol segment of a portable address.
#[derive(Debug)]
pub enum Proto {
    /// A DNS host name, resolved by the transport layer.
    DnsAddr(Vec<u8>),
    /// A literal IPv4 host, kept in its textual form.
    Ip4(Vec<u8>),
    /// A TCP port.
    Tcp(u16),
    /// A named service endpoint on the target node.
    Service(Vec<u8>),
}

/// The view of a protocol segment.
pub enum ProtoV {
    DnsAddr(Seq<u8>),
    Ip4(Seq<u8>),
    Tcp(u16),
    Service(Seq<u8>),
}

impl View for Proto {
    type V = ProtoV;

    open spec fn view(&self) -> ProtoV {
        match self {
            Proto::DnsAddr(h) => ProtoV::DnsAddr(h@),
            Proto::Ip4(h) => ProtoV::Ip4(h@),
            Proto::Tcp(p) => ProtoV::Tcp(*p),
            Proto::Service(n) => ProtoV::Service(n@),
        }
    }
}

/// A portable, protocol-tagged address: a human-readable description of a
/// routable destination, independent of the transport's native address
/// format. Its text form is `/`-separated protocol/value pairs.
#[derive(Debug)]
pub struct MultiAddr {
    pub protos: Vec<Proto>,
}

impl View for MultiAddr {
    type V = Seq<ProtoV>;

    open spec fn view(&self) -> Seq<ProtoV> {
        self.protos@.map_values(|p: Proto| p@)
    }
}

/// The ASCII bytes of the keyword "dnsaddr".
pub open spec fn spec_kw_dnsaddr() -> Seq<u8> {
    seq![100u8, 110u8, 115u8, 97u8, 100u8, 100u8, 114u8]
}

/// The ASCII bytes of the keyword "ip4".
pub open spec fn spec_kw_ip4() -> Seq<u8> {
    seq![105u8, 112u8, 52u8]
}

/// The ASCII bytes of the keyword "tcp".
pub open spec fn spec_kw_tcp() -> Seq<u8> {
    seq![116u8, 99u8, 112u8]
}

/// The ASCII bytes of the keyword "service".
pub open spec fn spec_kw_service() -> Seq<u8> {
    seq![115u8, 101u8, 114u8, 118u8, 105u8, 99u8, 101u8]
}

/// The canonical decimal digits of a number, most significant first.
pub open spec fn spec_dec_digits(n: int) -> Seq<u8>
    decreases n,
{
    if n < 10 {
        seq![(48 + if n < 0 { 0 } else { n }) as u8]
    } else {
        spec_dec_digits(n / 10).push((48 + n % 10) as u8)
    }
}

/// The numeric value of a digit string, most significant first.
pub open spec fn spec_dec_value(v: Seq<u8>) -> int
    decreases v.len(),
{
    if v.len() == 0 {
        0
    } else {
        spec_dec_value(v.drop_last()) * 10 + (v.last() - 48)
    }
}

/// Whether a digit string is the canonical text of a TCP port: one to five
/// digits, no leading zero, value at most 65535.
pub open spec fn spec_is_port(v: Seq<u8>) -> bool {
    &&& 1 <= v.len() <= 5
    &&& forall|j: int| 0 <= j < v.len() ==> 48 <= #[trigger] v[j] <= 57
    &&& (v[0] != 48 || v.len() == 1)
    &&& spec_dec_value(v) <= 65535
}

/// The keyword of a protocol segment.
pub open spec fn spec_proto_kw(p: ProtoV) -> Seq<u8> {
    match p {
        ProtoV::DnsAddr(_) => spec_kw_dnsaddr(),
        ProtoV::Ip4(_) => spec_kw_ip4(),
        ProtoV::Tcp(_) => spec_kw_tcp(),
        ProtoV::Service(_) => spec_kw_service(),
    }
}

/// The value text of a protocol segment.
pub open spec fn spec_proto_value(p: ProtoV) -> Seq<u8> {
    match p {
        ProtoV::DnsAddr(h) => h,
        ProtoV::Ip4(h) => h,
        ProtoV::Tcp(n) => spec_dec_digits(n as int),
        ProtoV::Service(s) => s,
    }
}

/// Whether a protocol segment is well-formed: its value text is non-empty
/// and contains no separator byte.
pub open spec fn spec_proto_wf(p: ProtoV) -> bool {
    &&& spec_proto_value(p).len() > 0
    &&& forall|j: int|
        0 <= j < spec_proto_value(p).len() ==> #[trigger] spec_proto_value(p)[j] != 47
    &&& (p matches ProtoV::Tcp(n) ==> spec_is_port(spec_dec_digits(n as int)))
}

/// The text of a portable address: for each segment, a separator, its
/// keyword, a separator, and its value.
pub open spec fn spec_render(ps: Seq<ProtoV>) -> Seq<u8>
    decreases ps.len(),
{
    if ps.len() == 0 {
        Seq::empty()
    } else {
        spec_render(ps.drop_last()) + seq![47u8] + spec_proto_kw(ps.last()) + seq![47u8]
            + spec_proto_value(ps.last())
    }
}

/// The end of the separator-free segment starting at `i`: the first position
/// at or after `i` holding a separator, or the end of the text.
pub open spec fn spec_seg_end(s: Seq<u8>, i: int) -> int
    decreases s.len() - i,
{
    if i < 0 || i >= s.len() {
        s.len() as int
    } else if s[i] == 47 {
        i
    } else {
        spec_seg_end(s, i + 1)
    }
}

pub proof fn lemma_seg_end_bounds(s: Seq<u8>, i: int)
    requires
        0 <= i <= s.len(),
    ensures
        i <= spec_seg_end(s, i) <= s.len(),
        spec_seg_end(s, i) < s.len() ==> s[spec_seg_end(s, i)] == 47,
        forall|j: int| i <= j < spec_seg_end(s, i) ==> #[trigger] s[j] != 47,
    decreases s.len() - i,
{
    if i < s.len() && s[i] != 47 {
        lemma_seg_end_bounds(s, i + 1);
    }
}

/// The protocol segment encoded by a keyword and a value text, if any.
pub open spec fn spec_decode_proto(kw: Seq<u8>, val: Seq<u8>) -> Option<ProtoV> {
    if val.len() == 0 {
        None
    } else if kw == spec_kw_dnsaddr() {
        Some(ProtoV::DnsAddr(val))
    } else if kw == spec_kw_ip4() {
        Some(ProtoV::Ip4(val))
    } else if kw == spec_kw_tcp() {
        if spec_is_port(val) {
            Some(ProtoV::Tcp(spec_dec_value(val) as u16))
        } else {
            None
        }
    } else if kw == spec_kw_service() {
        Some(ProtoV::Service(val))
    } else {
        None
    }
}

/// The grammar of portable address text, from position `i` on: a sequence
/// of `/keyword/value` pairs.
pub open spec fn spec_parse_from(s: Seq<u8>, i: int) -> Option<Seq<ProtoV>>
    decreases s.len() - i,
    when 0 <= i <= s.len()
    via spec_parse_from_dec
{
    if i == s.len() {
        Some(Seq::empty())
    } else if s[i] != 47 {
        None
    } else {
        let kw_end = spec_seg_end(s, i + 1);
        if kw_end == s.len() {
            None
        } else {
            let val_end = spec_seg_end(s, kw_end + 1);
            match spec_decode_proto(s.subrange(i + 1, kw_end), s.subrange(kw_end + 1, val_end)) {
                Option::None => None,
                Option::Some(p) => match spec_parse_from(s, val_end) {
                    Option::None => None,
                    Option::Some(rest) => Some(seq![p] + rest),
                },
            }
        }
    }
}

#[via_fn]
proof fn spec_parse_from_dec(s: Seq<u8>, i: int) {
    if 0 <= i < s.len() && s[i] == 47 {
        lemma_seg_end_bounds(s, i + 1);
        let kw_end = spec_seg_end(s, i + 1);
        if kw_end < s.len() {
            lemma_seg_end_bounds(s, kw_end + 1);
        }
    }
}

/// The parse of a whole portable address text.
pub open spec fn spec_parse(s: Seq<u8>) -> Option<Seq<ProtoV>> {
    spec_parse_from(s, 0)
}

fn kw_dnsaddr() -> (r: Vec<u8>)
    ensures
        r@ == spec_kw_dnsaddr(),
{
    let mut r: Vec<u8> = Vec::new();
    r.push(100);
    r.push(110);
    r.push(115);
    r.push(97);
    r.push(100);
    r.push(100);
    r.push(114);
    proof {
        assert(r@ =~= spec_kw_dnsaddr());
    }
    r
}

fn kw_ip4() -> (r: Vec<u8>)
    ensures
        r@ == spec_kw_ip4(),
{
    let mut r: Vec<u8> = Vec::new();
    r.push(105);
    r.push(112);
    r.push(52);
    proof {
        assert(r@ =~= spec_kw_ip4());
    }
    r
}

fn kw_tcp() -> (r: Vec<u8>)
    ensures
        r@ == spec_kw_tcp(),
{
    let mut r: Vec<u8> = Vec::new();
    r.push(116);
    r.push(99);
    r.push(112);
    proof {
        assert(r@ =~= spec_kw_tcp());
    }
    r
}

fn kw_service() -> (r: Vec<u8>)
    ensures
        r@ == spec_kw_service(),
{
    let mut r: Vec<u8> = Vec::new();
    r.push(115);
    r.push(101);
    r.push(114);
    r.push(118);
    r.push(105);
    r.push(99);
    r.push(101);
    proof {
        assert(r@ =~= spec_kw_service());
    }
    r
}

/// Append the bytes of `src` to `out`.
fn push_bytes(out: &mut Vec<u8>, src: &Vec<u8>)
    ensures
        final(out)@ == old(out)@ + src@,
{
    let mut i: usize = 0;
    while i < src.len()
        invariant
            i <= src@.len(),
            out@ == old(out)@ + src@.subrange(0, i as int),
        decreases src@.len() - i,
    {
        out.push(src[i]);
        proof {
            assert(out@ =~= old(out)@ + src@.subrange(0, i + 1 as int));
        }
        i += 1;
    }
    proof {
        assert(old(out)@ + src@.subrange(0, src@.len() as int) =~= old(out)@ + src@);
    }
}

/// Append the canonical decimal digits of `n` to `out`.
pub fn push_dec(out: &mut Vec<u8>, n: u16)
    ensures
        final(out)@ == old(out)@ + spec_dec_digits(n as int),
    decreases n,
{
    if n < 10 {
        out.push(48 + n as u8);
        proof {
            assert(out@ =~= old(out)@ + spec_dec_digits(n as int));
        }
    } else {
        push_dec(out, n / 10);
        out.push(48 + (n % 10) as u8);
        proof {
            assert(out@ =~= old(out)@ + spec_dec_digits(n as int));
        }
    }
}

/// Read the canonical text of a TCP port.
fn parse_port(v: &Vec<u8>) -> (r: Option<u16>)
    ensures
        r is Some <==> spec_is_port(v@),
        r matches Some(n) ==> n == spec_dec_value(v@),
{
    if v.len() < 1 || v.len() > 5 {
        return None;
    }
    if v.len() > 1 && v[0] == 48 {
        return None;
    }
    let mut value: u32 = 0;
    let mut i: usize = 0;
    while i < v.len()
        invariant
            i <= v@.len(),
            v@.len() <= 5,
            value == spec_dec_value(v@.subrange(0, i as int)),
            value <= 99999,
            forall|j: int| 0 <= j < i ==> 48 <= #[trigger] v@[j] <= 57,
        decreases v@.len() - i,
    {
        let c = v[i];
        if c < 48 || c > 57 {
            return None;
        }
        proof {
            assert(v@.subrange(0, i + 1 as int).drop_last() =~= v@.subrange(0, i as int));
            assert(spec_dec_value(v@.subrange(0, i as int)) <= 9999) by {
                lemma_dec_value_bound(v@.subrange(0, i as int));
                assert(pow10(0) == 1);
                assert(pow10(1) == 10);
                assert(pow10(2) == 100);
                assert(pow10(3) == 1000);
                assert(pow10(4) == 10000);
            }
        }
        value = value * 10 + (c - 48) as u32;
        i += 1;
    }
    proof {
        assert(v@.subrange(0, v@.len() as int) =~= v@);
    }
    if value > 65535 {
        return None;
    }
    Some(value as u16)
}

/// Ten to the power `n`.
pub open spec fn pow10(n: nat) -> int
    decreases n,
{
    if n == 0 {
        1
    } else {
        10 * pow10((n - 1) as nat)
    }
}

/// A digit string of length `n` encodes a value below ten to the `n`.
proof fn lemma_dec_value_bound(v: Seq<u8>)
    requires
        forall|j: int| 0 <= j < v.len() ==> 48 <= #[trigger] v[j] <= 57,
    ensures
        0 <= spec_dec_value(v) < pow10(v.len()),
    decreases v.len(),
{
    if v.len() > 0 {
        lemma_dec_value_bound(v.drop_last());
    }
}

impl Proto {
    /// Copy of a segment (its view is preserved).
    pub fn dup(&self) -> (r: Proto)
        ensures
            r@ == self@,
    {
        match self {
            Proto::DnsAddr(h) => Proto::DnsAddr(bytes_dup(h)),
            Proto::Ip4(h) => Proto::Ip4(bytes_dup(h)),
            Proto::Tcp(p) => Proto::Tcp(*p),
            Proto::Service(n) => Proto::Service(bytes_dup(n)),
        }
    }
}

impl MultiAddr {
    /// Whether every segment is well-formed.
    pub open spec fn wf(&self) -> bool {
        forall|i: int| 0 <= i < self@.len() ==> spec_proto_wf(#[trigger] self@[i])
    }

    pub fn empty() -> (r: MultiAddr)
        ensures
            r@ =~= Seq::<ProtoV>::empty(),
    {
        MultiAddr { protos: Vec::new() }
    }

    pub fn push_proto(&mut self, p: Proto)
        ensures
            final(self)@ =~= old(self)@.push(p@),
    {
        self.protos.push(p);
    }

    /// Copy of a portable address (its view is preserved).
    pub fn dup(&self) -> (r: MultiAddr)
        ensures
            r@ == self@,
    {
        let mut protos: Vec<Proto> = Vec::new();
        let mut i: usize = 0;
        while i < self.protos.len()
            invariant
                i <= self.protos@.len(),
                protos@.len() == i,
                forall|j: int| 0 <= j < i ==> protos@[j]@ == self.protos@[j]@,
            decreases self.protos@.len() - i,
        {
            protos.push(self.protos[i].dup());
            i += 1;
        }
        let r = MultiAddr { protos };
        proof {
            assert(r@ =~= self@);
        }
        r
    }

    /// The canonical text of this portable address.
    pub fn to_text(&self) -> (t: Vec<u8>)
        ensures
            t@ == spec_render(self@),
    {
        let mut out: Vec<u8> = Vec::new();
        let mut i: usize = 0;
        while i < self.protos.len()
            invariant
                i <= self.protos@.len(),
                out@ == spec_render(self@.subrange(0, i as int)),
            decreases self.protos@.len() - i,
        {
            let ghost prefix = self@.subrange(0, i as int);
            out.push(47);
            match &self.protos[i] {
                Proto::DnsAddr(h) => {
                    let kw = kw_dnsaddr();
                    push_bytes(&mut out, &kw);
                    out.push(47);
                    push_bytes(&mut out, h);
                },
                Proto::Ip4(h) => {
                    let kw = kw_ip4();
                    push_bytes(&mut out, &kw);
                    out.push(47);
                    push_bytes(&mut out, h);
                },
                Proto::Tcp(p) => {
                    let kw = kw_tcp();
                    push_bytes(&mut out, &kw);
                    out.push(47);
                    push_dec(&mut out, *p);
                },
                Proto::Service(n) => {
                    let kw = kw_service();
                    push_bytes(&mut out, &kw);
                    out.push(47);
                    push_bytes(&mut out, n);
                },
            }
            proof {
                let next = self@.subrange(0, i + 1 as int);
                assert(next.drop_last() =~= prefix);
                assert(next.last() == self@[i as int]);
                assert(out@ =~= spec_render(prefix) + seq![47u8] + spec_proto_kw(self@[i as int])
                    + seq![47u8] + spec_proto_value(self@[i as int]));
            }
            i += 1;
        }
        proof {
            assert(self@.subrange(0, self@.len() as int) =~= self@);
        }
        out
    }

    /// Parse portable address text. Succeeds exactly on text the grammar
    /// accepts; malformed input is a format error.
    pub fn parse(s: &Vec<u8>) -> (r: Result<MultiAddr, ApiError>)
        ensures
            r is Ok <==> spec_parse(s@) is Some,
            r matches Ok(m) ==> Some(m@) == spec_parse(s@),
            r matches Err(e) ==> e == ApiError::InvalidRoute,
    {
        let mut acc: Vec<Proto> = Vec::new();
        let mut i: usize = 0;
        proof {
            assert(acc@.map_values(|p: Proto| p@) =~= Seq::<ProtoV>::empty());
        }
        while i < s.len()
            invariant
                i <= s@.len(),
                spec_parse(s@) == spec_opt_concat(
                    acc@.map_values(|p: Proto| p@),
                    spec_parse_from(s@, i as int),
                ),
            decreases s@.len() - i,
        {
            let ghost accv = acc@.map_values(|p: Proto| p@);
            if s[i] != 47 {
                return Err(ApiError::InvalidRoute);
            }
            let kw_end = seg_end(s, i + 1);
            proof {
                lemma_seg_end_bounds(s@, i + 1);
            }
            if kw_end == s.len() {
                return Err(ApiError::InvalidRoute);
            }
            let val_end = seg_end(s, kw_end + 1);
            proof {
                lemma_seg_end_bounds(s@, kw_end + 1);
            }
            let kw = segment_bytes(s, i + 1, kw_end);
            let val = segment_bytes(s, kw_end + 1, val_end);
            let proto: Proto;
            if val.len() == 0 {
                return Err(ApiError::InvalidRoute);
            }
            if bytes_eq(&kw, &kw_dnsaddr()) {
                proto = Proto::DnsAddr(val);
            } else if bytes_eq(&kw, &kw_ip4()) {
                proto = Proto::Ip4(val);
            } else if bytes_eq(&kw, &kw_tcp()) {
                match parse_port(&val) {
                    Some(p) => {
                        proto = Proto::Tcp(p);
                    },
                    None => {
                        return Err(ApiError::InvalidRoute);
                    },
                }
            } else if bytes_eq(&kw, &kw_service()) {
                proto = Proto::Service(val);
            } else {
                return Err(ApiError::InvalidRoute);
            }
            proof {
                assert(spec_decode_proto(
                    s@.subrange(i + 1, kw_end as int),
                    s@.subrange(kw_end + 1, val_end as int),
                ) == Some(proto@));
            }
            acc.push(proto);
            proof {
                let p = acc@.last()@;
                assert(acc@.map_values(|q: Proto| q@) =~= accv.push(p));
                assert(spec_parse_from(s@, i as int) == match spec_parse_from(s@, val_end as int) {
                    Option::None => Option::<Seq<ProtoV>>::None,
                    Option::Some(rest) => Option::Some(seq![p] + rest),
                });
                assert(spec_opt_concat(accv, spec_parse_from(s@, i as int)) == spec_opt_concat(
                    accv.push(p),
                    spec_parse_from(s@, val_end as int),
                )) by {
                    match spec_parse_from(s@, val_end as int) {
                        Option::None => {},
                        Option::Some(rest) => {
                            assert(accv + (seq![p] + rest) =~= accv.push(p) + rest);
                        },
                    }
                }
            }
            i = val_end;
        }
        proof {
            assert(spec_parse_from(s@, i as int) == Some(Seq::<ProtoV>::empty()));
            assert(acc@.map_values(|p: Proto| p@) + Seq::<ProtoV>::empty() =~= acc@.map_values(
                |p: Proto| p@,
            ));
        }
        Ok(MultiAddr { protos: acc })
    }
}

/// The keyword of every protocol segment is non-empty and free of the
/// separator byte.
proof fn lemma_kw_no_sep(p: ProtoV)
    ensures
        spec_proto_kw(p).len() > 0,
        forall|j: int| 0 <= j < spec_proto_kw(p).len() ==> #[trigger] spec_proto_kw(p)[j] != 47,
{
    let kw = spec_proto_kw(p);
    assert forall|j: int| 0 <= j < kw.len() implies #[trigger] kw[j] != 47 by {
        match p {
            ProtoV::DnsAddr(_) => {
                assert(kw =~= spec_kw_dnsaddr());
                if j == 0 {
                    assert(kw[0] == 100);
                } else if j == 1 {
                    assert(kw[1] == 110);
                } else if j == 2 {
                    assert(kw[2] == 115);
                } else if j == 3 {
                    assert(kw[3] == 97);
                } else if j == 4 {
                    assert(kw[4] == 100);
                } else if j == 5 {
                    assert(kw[5] == 100);
                } else {
                    assert(kw[6] == 114);
                }
            },
            ProtoV::Ip4(_) => {
                if j == 0 {
                    assert(kw[0] == 105);
                } else if j == 1 {
                    assert(kw[1] == 112);
                } else {
                    assert(kw[2] == 52);
                }
            },
            ProtoV::Tcp(_) => {
                if j == 0 {
                    assert(kw[0] == 116);
                } else if j == 1 {
                    assert(kw[1] == 99);
                } else {
                    assert(kw[2] == 112);
                }
            },
            ProtoV::Service(_) => {
                if j == 0 {
                    assert(kw[0] == 115);
                } else if j == 1 {
                    assert(kw[1] == 101);
                } else if j == 2 {
                    assert(kw[2] == 114);
                } else if j == 3 {
                    assert(kw[3] == 118);
                } else if j == 4 {
                    assert(kw[4] == 105);
                } else if j == 5 {
                    assert(kw[5] == 99);
                } else {
                    assert(kw[6] == 101);
                }
            },
        }
    }
}

/// The canonical digits of a number are ASCII digits.
proof fn lemma_dec_digits_are_digits(n: int)
    requires
        n >= 0,
    ensures
        spec_dec_digits(n).len() > 0,
        forall|j: int|
            0 <= j < spec_dec_digits(n).len() ==> 48 <= #[trigger] spec_dec_digits(n)[j] <= 57,
    decreases n,
{
    if n >= 10 {
        lemma_dec_digits_are_digits(n / 10);
    }
}

/// Reading the canonical digits of a number recovers the number.
proof fn lemma_dec_value_of_digits(n: int)
    requires
        n >= 0,
    ensures
        spec_dec_value(spec_dec_digits(n)) == n,
    decreases n,
{
    let d = spec_dec_digits(n);
    if n < 10 {
        assert(d =~= seq![(48 + n) as u8]);
        assert(d.drop_last() =~= Seq::<u8>::empty());
        assert(spec_dec_value(d) == spec_dec_value(d.drop_last()) * 10 + (d.last() - 48));
        assert(d.last() == (48 + n) as u8);
    } else {
        lemma_dec_value_of_digits(n / 10);
        assert(d == spec_dec_digits(n / 10).push((48 + n % 10) as u8));
        assert(d.drop_last() =~= spec_dec_digits(n / 10));
        assert(d.last() == (48 + n % 10) as u8);
        assert(0 <= n % 10 < 10);
        assert(spec_dec_value(d) == spec_dec_value(d.drop_last()) * 10 + (d.last() - 48));
        assert(spec_dec_value(d) == (n / 10) * 10 + n % 10);
    }
}

/// A number below ten to the `k` has at most `k` canonical digits.
proof fn lemma_dec_digits_len(n: int, k: nat)
    requires
        0 <= n < pow10(k),
        k >= 1,
    ensures
        spec_dec_digits(n).len() <= k,
    decreases n,
{
    if n >= 10 {
        assert(pow10(k) == 10 * pow10((k - 1) as nat));
        lemma_dec_digits_len(n / 10, (k - 1) as nat);
    }
}

/// The canonical digits of a positive number never start with a zero.
proof fn lemma_dec_digits_canonical(n: int)
    requires
        n >= 1,
    ensures
        spec_dec_digits(n)[0] != 48,
    decreases n,
{
    if n < 10 {
        assert(spec_dec_digits(n)[0] == (48 + n) as u8);
    } else {
        lemma_dec_digits_canonical(n / 10);
        lemma_dec_digits_are_digits(n / 10);
        assert(spec_dec_digits(n)[0] == spec_dec_digits(n / 10)[0]);
    }
}

/// The canonical digits of a port are a canonical port text.
proof fn lemma_dec_digits_port(n: int)
    requires
        0 <= n <= 65535,
    ensures
        spec_is_port(spec_dec_digits(n)),
{
    lemma_dec_digits_are_digits(n);
    lemma_dec_value_of_digits(n);
    if n >= 1 {
        lemma_dec_digits_canonical(n);
    } else {
        assert(spec_dec_digits(0) =~= seq![48u8]);
    }
    assert(pow10(0) == 1);
    assert(pow10(1) == 10);
    assert(pow10(2) == 100);
    assert(pow10(3) == 1000);
    assert(pow10(4) == 10000);
    assert(pow10(5) == 100000);
    lemma_dec_digits_len(n, 5);
}

/// The value text of a well-formed protocol segment never holds the
/// separator byte.
proof fn lemma_value_no_sep(p: ProtoV)
    requires
        spec_proto_wf(p),
    ensures
        spec_proto_value(p).len() > 0,
        forall|j: int|
            0 <= j < spec_proto_value(p).len() ==> #[trigger] spec_proto_value(p)[j] != 47,
{
    match p {
        ProtoV::Tcp(n) => {
            lemma_dec_digits_are_digits(n as int);
        },
        _ => {},
    }
}

/// Rendering decomposes at the front as well: the first segment's text,
/// then the rendering of the rest.
proof fn lemma_render_front(ps: Seq<ProtoV>)
    requires
        ps.len() > 0,
    ensures
        spec_render(ps) == seq![47u8] + spec_proto_kw(ps[0]) + seq![47u8] + spec_proto_value(ps[0])
            + spec_render(ps.drop_first()),
    decreases ps.len(),
{
    if ps.len() == 1 {
        assert(ps.drop_last() =~= Seq::<ProtoV>::empty());
        assert(ps.drop_first() =~= Seq::<ProtoV>::empty());
        assert(spec_render(ps) =~= seq![47u8] + spec_proto_kw(ps[0]) + seq![47u8]
            + spec_proto_value(ps[0]) + spec_render(ps.drop_first()));
    } else {
        lemma_render_front(ps.drop_last());
        assert(ps.drop_last()[0] == ps[0]);
        assert(ps.drop_last().drop_first() =~= ps.drop_first().drop_last());
        assert(ps.drop_first().len() > 0);
        assert(ps.drop_first().last() == ps.last());
        assert(spec_render(ps) =~= seq![47u8] + spec_proto_kw(ps[0]) + seq![47u8]
            + spec_proto_value(ps[0]) + spec_render(ps.drop_first()));
    }
}

/// A segment scan that starts before a separator-free stretch ends exactly
/// at its known boundary.
proof fn lemma_seg_end_at(s: Seq<u8>, i: int, k: int)
    requires
        0 <= i <= k <= s.len(),
        forall|j: int| i <= j < k ==> #[trigger] s[j] != 47,
        k == s.len() || s[k] == 47,
    ensures
        spec_seg_end(s, i) == k,
    decreases k - i,
{
    if i < k {
        lemma_seg_end_at(s, i + 1, k);
    }
}

/// Parsing the rendering of a well-formed suffix recovers it: the grammar
/// accepts every canonical text and reads back exactly the segments it
/// renders.
proof fn lemma_parse_of_render_suffix(s: Seq<u8>, i: int, ps: Seq<ProtoV>)
    requires
        0 <= i <= s.len(),
        s.subrange(i, s.len() as int) == spec_render(ps),
        forall|j: int| 0 <= j < ps.len() ==> spec_proto_wf(#[trigger] ps[j]),
    ensures
        spec_parse_from(s, i) == Some(ps),
    decreases ps.len(),
{
    if ps.len() == 0 {
        assert(spec_render(ps).len() == 0);
        assert(i == s.len());
        assert(spec_parse_from(s, i) =~= Some(ps));
    } else {
        let p = ps[0];
        let kw = spec_proto_kw(p);
        let val = spec_proto_value(p);
        let rest = spec_render(ps.drop_first());
        lemma_render_front(ps);
        lemma_kw_no_sep(p);
        lemma_value_no_sep(p);
        let suffix = s.subrange(i, s.len() as int);
        let a = seq![47u8] + kw;
        let b = a + seq![47u8];
        let c = b + val;
        assert(suffix =~= c + rest);
        assert(c.len() == 2 + kw.len() + val.len());
        assert forall|m: int| 0 <= m < suffix.len() implies suffix[m] == s[i + m] by {
            assert(suffix[m] == s.subrange(i, s.len() as int)[m]);
        }
        assert forall|m: int| 0 <= m < c.len() implies suffix[m] == c[m] by {
            assert((c + rest)[m] == c[m]);
        }
        assert(c[0] == 47) by {
            assert(c[0] == b[0]);
            assert(b[0] == a[0]);
            assert(a[0] == 47);
        }
        assert forall|j: int| 0 <= j < kw.len() implies c[1 + j] == kw[j] by {
            assert(c[1 + j] == b[1 + j]);
            assert(b[1 + j] == a[1 + j]);
            assert(a[1 + j] == kw[j]);
        }
        assert(c[1 + kw.len() as int] == 47) by {
            assert(c[1 + kw.len() as int] == b[1 + kw.len() as int]);
            assert(b[1 + kw.len() as int] == seq![47u8][0int]);
        }
        assert forall|j: int| 0 <= j < val.len() implies c[2 + kw.len() as int + j] == val[j] by {
            assert(c[2 + kw.len() as int + j] == val[2 + kw.len() as int + j - b.len()]);
        }
        assert forall|m: int| 0 <= m < rest.len() implies suffix[c.len() as int + m] == rest[m] by {
            assert((c + rest)[c.len() as int + m] == rest[m]);
        }
        let kw_end = i + 1 + kw.len();
        let val_end = kw_end + 1 + val.len();
        assert(s[i] == 47);
        assert forall|j: int| i + 1 <= j < kw_end implies #[trigger] s[j] != 47 by {
            assert(s[j] == suffix[j - i]);
            assert(suffix[j - i] == c[j - i]);
            assert(c[1 + (j - i - 1)] == kw[j - i - 1]);
        }
        assert(s[kw_end] == 47) by {
            assert(s[kw_end] == suffix[kw_end - i]);
            assert(suffix[kw_end - i] == c[1 + kw.len() as int]);
        }
        lemma_seg_end_at(s, i + 1, kw_end);
        assert forall|j: int| kw_end + 1 <= j < val_end implies #[trigger] s[j] != 47 by {
            assert(s[j] == suffix[j - i]);
            assert(suffix[j - i] == c[j - i]);
            assert(c[2 + kw.len() as int + (j - i - 2 - kw.len())] == val[j - i - 2 - kw.len()]);
        }
        if val_end < s.len() {
            lemma_render_front(ps.drop_first());
            assert(ps.drop_first().len() > 0);
            assert(rest.len() > 0);
            assert(rest[0] == 47) by {
                assert(rest[0] == (seq![47u8] + spec_proto_kw(ps.drop_first()[0])
                    + seq![47u8] + spec_proto_value(ps.drop_first()[0])
                    + spec_render(ps.drop_first().drop_first()))[0]);
            }
            assert(s[val_end as int] == 47) by {
                assert(s[val_end as int] == suffix[val_end - i]);
                assert(suffix[c.len() as int + 0] == rest[0]);
            }
        }
        lemma_seg_end_at(s, kw_end + 1, val_end);
        assert(s.subrange(i + 1, kw_end as int) =~= kw) by {
            assert forall|j: int| 0 <= j < kw.len() implies s.subrange(i + 1, kw_end as int)[j]
                == kw[j] by {
                assert(s.subrange(i + 1, kw_end as int)[j] == s[i + 1 + j]);
                assert(s[i + 1 + j] == suffix[1 + j]);
                assert(suffix[1 + j] == c[1 + j]);
            }
        }
        assert(s.subrange(kw_end + 1, val_end as int) =~= val) by {
            assert forall|j: int| 0 <= j < val.len() implies s.subrange(
                kw_end + 1,
                val_end as int,
            )[j] == val[j] by {
                assert(s.subrange(kw_end + 1, val_end as int)[j] == s[kw_end + 1 + j]);
                assert(s[kw_end + 1 + j] == suffix[2 + kw.len() as int + j]);
                assert(suffix[2 + kw.len() as int + j] == c[2 + kw.len() as int + j]);
            }
        }
        match p {
            ProtoV::Tcp(n) => {
                lemma_dec_digits_port(n as int);
                lemma_dec_value_of_digits(n as int);
                assert(spec_kw_tcp()[0] == 116 && spec_kw_dnsaddr()[0] == 100 && spec_kw_ip4()[0]
                    == 105);
                assert(spec_decode_proto(kw, val) == Some(p));
            },
            ProtoV::DnsAddr(_) => {
                assert(spec_decode_proto(kw, val) == Some(p));
            },
            ProtoV::Ip4(_) => {
                assert(spec_kw_ip4()[0] == 105 && spec_kw_dnsaddr()[0] == 100);
                assert(spec_decode_proto(kw, val) == Some(p));
            },
            ProtoV::Service(_) => {
                assert(spec_kw_service()[0] == 115 && spec_kw_dnsaddr()[0] == 100);
                assert(spec_kw_service().len() == 7 && spec_kw_ip4().len() == 3);
                assert(spec_decode_proto(kw, val) == Some(p));
            },
        }
        assert(s.subrange(val_end as int, s.len() as int) =~= rest) by {
            assert forall|m: int| 0 <= m < rest.len() implies s.subrange(
                val_end as int,
                s.len() as int,
            )[m] == rest[m] by {
                assert(s.subrange(val_end as int, s.len() as int)[m] == s[val_end + m]);
                assert(s[val_end + m] == suffix[c.len() as int + m]);
            }
        }
        lemma_parse_of_render_suffix(s, val_end, ps.drop_first());
        assert(spec_parse_from(s, i) == Some(seq![p] + ps.drop_first()));
        assert(seq![p] + ps.drop_first() =~= ps);
    }
}

/// Parsing inverts rendering: for every well-formed portable address, the
/// parse of its canonical text yields exactly its segments.
pub proof fn lemma_parse_render_round_trip(ps: Seq<ProtoV>)
    requires
        forall|j: int| 0 <= j < ps.len() ==> spec_proto_wf(#[trigger] ps[j]),
    ensures
        spec_parse(spec_render(ps)) == Some(ps),
{
    let s = spec_render(ps);
    assert(s.subrange(0, s.len() as int) =~= s);
    lemma_parse_of_render_suffix(s, 0, ps);
}

/// Prepend a parsed prefix onto the outcome for the remaining text.
pub open spec fn spec_opt_concat(prefix: Seq<ProtoV>, rest: Option<Seq<ProtoV>>) -> Option<
    Seq<ProtoV>,
> {
    match rest {
        Option::None => None,
        Option::Some(r) => Some(prefix + r),
    }
}

/// The end of the separator-free segment starting at `from`.
fn seg_end(s: &Vec<u8>, from: usize) -> (j: usize)
    requires
        from <= s@.len(),
    ensures
        j == spec_seg_end(s@, from as int),
        from <= j <= s@.len(),
{
    let mut j = from;
    while j < s.len() && s[j] != 47
        invariant
            from <= j <= s@.len(),
            spec_seg_end(s@, from as int) == spec_seg_end(s@, j as int),
        decreases s@.len() - j,
    {
        j += 1;
    }
    j
}

/// The bytes of `s` between `start` and `end`.
fn segment_bytes(s: &Vec<u8>, start: usize, end: usize) -> (r: Vec<u8>)
    requires
        start <= end <= s@.len(),
    ensures
        r@ == s@.subrange(start as int, end as int),
{
    let mut r: Vec<u8> = Vec::new();
    let mut i = start;
    while i < end
        invariant
            start <= i <= end <= s@.len(),
            r@ == s@.subrange(start as int, i as int),
        decreases end - i,
    {
        r.push(s[i]);
        proof {
            assert(r@ =~= s@.subrange(start as int, i + 1 as int));
        }
        i += 1;
    }
    r
}

} // verus!
