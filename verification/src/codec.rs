//! The wire format for broker–client messages: self-delimiting binary
//! frames over a byte stream.
//!
//! Every field is length-prefixed or tagged, so a frame can be decoded
//! without looking ahead: integers are eight little-endian bytes, strings
//! are a byte count followed by UTF-8, options and enums carry one tag
//! byte, lists carry their count.  Encoding and decoding are verified
//! against the same specification functions, and decoding an encoded
//! message provably yields the message back.

use vstd::prelude::*;
use vstd::bytes::{
    lemma_auto_spec_u64_to_from_le_bytes, spec_u64_from_le_bytes, spec_u64_to_le_bytes,
    u64_from_le_bytes, u64_to_le_bytes,
};
use vstd::slice::{slice_subrange, slice_to_vec};
use vstd::string::StrSliceExecFns;
use vstd::utf8::{
    decode_utf8, encode_utf8, encode_utf8_decode_utf8, encode_utf8_valid_utf8, valid_utf8,
};
use crate::protocol::{
    HandleOutcome, HandleOutcomeV, MatchEntry, MatchEntryV, ProviderInfo, ProviderInfoV, Request,
    RequestV, Response, ResponseV, view_opt_string,
};

verus! {

// ---------------------------------------------------------------------
// Specification: what the encoding of each value is.
// ---------------------------------------------------------------------

/// The encoding of an unsigned integer: eight little-endian bytes.
pub open spec fn spec_enc_u64(x: u64) -> Seq<u8> {
    spec_u64_to_le_bytes(x)
}

/// The encoding of a boolean: one byte, zero or one.
pub open spec fn spec_enc_bool(b: bool) -> Seq<u8> {
    seq![if b { 1u8 } else { 0u8 }]
}

/// The encoding of a string: the UTF-8 byte count, then the UTF-8 bytes.
pub open spec fn spec_enc_str(s: Seq<char>) -> Seq<u8> {
    spec_enc_u64(encode_utf8(s).len() as u64) + encode_utf8(s)
}

/// The encoding of an optional string: an absence/presence byte, then
/// the string when present.
pub open spec fn spec_enc_opt_str(s: Option<Seq<char>>) -> Seq<u8> {
    match s {
        None => seq![0u8],
        Some(t) => seq![1u8] + spec_enc_str(t),
    }
}

/// The encoding of an optional integer.
pub open spec fn spec_enc_opt_u64(x: Option<u64>) -> Seq<u8> {
    match x {
        None => seq![0u8],
        Some(v) => seq![1u8] + spec_enc_u64(v),
    }
}

/// The encoding of a provider description: name, then icon.
pub open spec fn spec_enc_info(i: ProviderInfoV) -> Seq<u8> {
    spec_enc_str(i.name) + spec_enc_str(i.icon)
}

/// The encoding of one result entry, field by field.
pub open spec fn spec_enc_entry(e: MatchEntryV) -> Seq<u8> {
    spec_enc_str(e.title) + spec_enc_opt_str(e.description) + spec_enc_opt_str(e.icon)
        + spec_enc_opt_u64(e.id) + spec_enc_bool(e.rich_text)
}

/// The encodings of a run of provider descriptions, concatenated.
pub open spec fn spec_enc_infos(l: Seq<ProviderInfoV>) -> Seq<u8>
    decreases l.len(),
{
    if l.len() == 0 {
        Seq::empty()
    } else {
        spec_enc_info(l[0]) + spec_enc_infos(l.skip(1))
    }
}

/// The encodings of a run of entries, concatenated.
pub open spec fn spec_enc_entries(l: Seq<MatchEntryV>) -> Seq<u8>
    decreases l.len(),
{
    if l.len() == 0 {
        Seq::empty()
    } else {
        spec_enc_entry(l[0]) + spec_enc_entries(l.skip(1))
    }
}

/// The encoding of a list of provider descriptions: count, then items.
pub open spec fn spec_enc_info_list(l: Seq<ProviderInfoV>) -> Seq<u8> {
    spec_enc_u64(l.len() as u64) + spec_enc_infos(l)
}

/// The encoding of a list of entries: count, then items.
pub open spec fn spec_enc_entry_list(l: Seq<MatchEntryV>) -> Seq<u8> {
    spec_enc_u64(l.len() as u64) + spec_enc_entries(l)
}

/// The encoding of a selection outcome.
pub open spec fn spec_enc_outcome(o: HandleOutcomeV) -> Seq<u8> {
    match o {
        HandleOutcomeV::Close => seq![1u8],
        HandleOutcomeV::KeepOpen => seq![2u8],
        HandleOutcomeV::RefreshQuery(t) => seq![3u8] + spec_enc_str(t),
    }
}

/// The encoding of a client request.
pub open spec fn spec_enc_request(r: RequestV) -> Seq<u8> {
    match r {
        RequestV::Query(t) => seq![1u8] + spec_enc_str(t),
        RequestV::Handle { provider, selection } => seq![2u8] + spec_enc_info(provider)
            + spec_enc_entry(selection),
        RequestV::Reset => seq![3u8],
        RequestV::Quit => seq![4u8],
    }
}

/// The encoding of a broker response.
pub open spec fn spec_enc_response(r: ResponseV) -> Seq<u8> {
    match r {
        ResponseV::Ready { providers } => seq![1u8] + spec_enc_info_list(providers),
        ResponseV::Matches { provider, entries } => seq![2u8] + spec_enc_info(provider)
            + spec_enc_entry_list(entries),
        ResponseV::Handled { provider, outcome } => seq![3u8] + spec_enc_info(provider)
            + spec_enc_outcome(outcome),
    }
}

// ---------------------------------------------------------------------
// Specification: what decoding reads at a position.  Each parser yields
// the value and the position after it, or nothing when the bytes do not
// form a value.
// ---------------------------------------------------------------------

/// Reads one byte.
pub open spec fn spec_parse_u8(b: Seq<u8>, pos: int) -> Option<(u8, int)> {
    if 0 <= pos && pos + 1 <= b.len() {
        Some((b[pos], pos + 1))
    } else {
        None
    }
}

/// Reads an unsigned integer: eight little-endian bytes.
pub open spec fn spec_parse_u64(b: Seq<u8>, pos: int) -> Option<(u64, int)> {
    if 0 <= pos && pos + 8 <= b.len() {
        Some((spec_u64_from_le_bytes(b.subrange(pos, pos + 8)), pos + 8))
    } else {
        None
    }
}

/// Reads a boolean: one byte that must be zero or one.
pub open spec fn spec_parse_bool(b: Seq<u8>, pos: int) -> Option<(bool, int)> {
    match spec_parse_u8(b, pos) {
        None => None,
        Some((t, p)) => if t == 0 {
            Some((false, p))
        } else if t == 1 {
            Some((true, p))
        } else {
            None
        },
    }
}

/// Reads a string: a byte count, then that many bytes of valid UTF-8.
pub open spec fn spec_parse_str(b: Seq<u8>, pos: int) -> Option<(Seq<char>, int)> {
    match spec_parse_u64(b, pos) {
        None => None,
        Some((n, p)) => if p + n <= b.len() {
            let bytes = b.subrange(p, p + n);
            if valid_utf8(bytes) {
                Some((decode_utf8(bytes), p + n))
            } else {
                None
            }
        } else {
            None
        },
    }
}

/// Reads an optional string.
pub open spec fn spec_parse_opt_str(b: Seq<u8>, pos: int) -> Option<(Option<Seq<char>>, int)> {
    match spec_parse_u8(b, pos) {
        None => None,
        Some((t, p)) => if t == 0 {
            Some((None, p))
        } else if t == 1 {
            match spec_parse_str(b, p) {
                None => None,
                Some((s, p2)) => Some((Some(s), p2)),
            }
        } else {
            None
        },
    }
}

/// Reads an optional integer.
pub open spec fn spec_parse_opt_u64(b: Seq<u8>, pos: int) -> Option<(Option<u64>, int)> {
    match spec_parse_u8(b, pos) {
        None => None,
        Some((t, p)) => if t == 0 {
            Some((None, p))
        } else if t == 1 {
            match spec_parse_u64(b, p) {
                None => None,
                Some((x, p2)) => Some((Some(x), p2)),
            }
        } else {
            None
        },
    }
}

/// Reads a provider description.
pub open spec fn spec_parse_info(b: Seq<u8>, pos: int) -> Option<(ProviderInfoV, int)> {
    match spec_parse_str(b, pos) {
        None => None,
        Some((name, p)) => match spec_parse_str(b, p) {
            None => None,
            Some((icon, p2)) => Some((ProviderInfoV { name, icon }, p2)),
        },
    }
}

/// Reads one result entry.
pub open spec fn spec_parse_entry(b: Seq<u8>, pos: int) -> Option<(MatchEntryV, int)> {
    match spec_parse_str(b, pos) {
        None => None,
        Some((title, p1)) => match spec_parse_opt_str(b, p1) {
            None => None,
            Some((description, p2)) => match spec_parse_opt_str(b, p2) {
                None => None,
                Some((icon, p3)) => match spec_parse_opt_u64(b, p3) {
                    None => None,
                    Some((id, p4)) => match spec_parse_bool(b, p4) {
                        None => None,
                        Some((rich_text, p5)) => Some((
                            MatchEntryV { title, description, icon, id, rich_text },
                            p5,
                        )),
                    },
                },
            },
        },
    }
}

/// Reads `n` provider descriptions in a row.
pub open spec fn spec_parse_infos(b: Seq<u8>, pos: int, n: nat) -> Option<(
    Seq<ProviderInfoV>,
    int,
)>
    decreases n,
{
    if n == 0 {
        Some((Seq::empty(), pos))
    } else {
        match spec_parse_info(b, pos) {
            None => None,
            Some((v, p)) => match spec_parse_infos(b, p, (n - 1) as nat) {
                None => None,
                Some((l, p2)) => Some((seq![v] + l, p2)),
            },
        }
    }
}

/// Reads `n` entries in a row.
pub open spec fn spec_parse_entries(b: Seq<u8>, pos: int, n: nat) -> Option<(
    Seq<MatchEntryV>,
    int,
)>
    decreases n,
{
    if n == 0 {
        Some((Seq::empty(), pos))
    } else {
        match spec_parse_entry(b, pos) {
            None => None,
            Some((v, p)) => match spec_parse_entries(b, p, (n - 1) as nat) {
                None => None,
                Some((l, p2)) => Some((seq![v] + l, p2)),
            },
        }
    }
}

/// Reads a counted list of provider descriptions.
pub open spec fn spec_parse_info_list(b: Seq<u8>, pos: int) -> Option<(Seq<ProviderInfoV>, int)> {
    match spec_parse_u64(b, pos) {
        None => None,
        Some((n, p)) => spec_parse_infos(b, p, n as nat),
    }
}

/// Reads a counted list of entries.
pub open spec fn spec_parse_entry_list(b: Seq<u8>, pos: int) -> Option<(Seq<MatchEntryV>, int)> {
    match spec_parse_u64(b, pos) {
        None => None,
        Some((n, p)) => spec_parse_entries(b, p, n as nat),
    }
}

/// Reads a selection outcome.
pub open spec fn spec_parse_outcome(b: Seq<u8>, pos: int) -> Option<(HandleOutcomeV, int)> {
    match spec_parse_u8(b, pos) {
        None => None,
        Some((t, p)) => if t == 1 {
            Some((HandleOutcomeV::Close, p))
        } else if t == 2 {
            Some((HandleOutcomeV::KeepOpen, p))
        } else if t == 3 {
            match spec_parse_str(b, p) {
                None => None,
                Some((s, p2)) => Some((HandleOutcomeV::RefreshQuery(s), p2)),
            }
        } else {
            None
        },
    }
}

/// Reads a client request.
pub open spec fn spec_parse_request(b: Seq<u8>, pos: int) -> Option<(RequestV, int)> {
    match spec_parse_u8(b, pos) {
        None => None,
        Some((t, p)) => if t == 1 {
            match spec_parse_str(b, p) {
                None => None,
                Some((s, p2)) => Some((RequestV::Query(s), p2)),
            }
        } else if t == 2 {
            match spec_parse_info(b, p) {
                None => None,
                Some((provider, p2)) => match spec_parse_entry(b, p2) {
                    None => None,
                    Some((selection, p3)) => Some((
                        RequestV::Handle { provider, selection },
                        p3,
                    )),
                },
            }
        } else if t == 3 {
            Some((RequestV::Reset, p))
        } else if t == 4 {
            Some((RequestV::Quit, p))
        } else {
            None
        },
    }
}

/// Reads a broker response.
pub open spec fn spec_parse_response(b: Seq<u8>, pos: int) -> Option<(ResponseV, int)> {
    match spec_parse_u8(b, pos) {
        None => None,
        Some((t, p)) => if t == 1 {
            match spec_parse_info_list(b, p) {
                None => None,
                Some((providers, p2)) => Some((ResponseV::Ready { providers }, p2)),
            }
        } else if t == 2 {
            match spec_parse_info(b, p) {
                None => None,
                Some((provider, p2)) => match spec_parse_entry_list(b, p2) {
                    None => None,
                    Some((entries, p3)) => Some((
                        ResponseV::Matches { provider, entries },
                        p3,
                    )),
                },
            }
        } else if t == 3 {
            match spec_parse_info(b, p) {
                None => None,
                Some((provider, p2)) => match spec_parse_outcome(b, p2) {
                    None => None,
                    Some((outcome, p3)) => Some((
                        ResponseV::Handled { provider, outcome },
                        p3,
                    )),
                },
            }
        } else {
            None
        },
    }
}

/// A whole frame body is one request and nothing after it.
pub open spec fn spec_decode_request(b: Seq<u8>) -> Option<RequestV> {
    match spec_parse_request(b, 0) {
        None => None,
        Some((r, p)) => if p == b.len() {
            Some(r)
        } else {
            None
        },
    }
}

/// A whole frame body is one response and nothing after it.
pub open spec fn spec_decode_response(b: Seq<u8>) -> Option<ResponseV> {
    match spec_parse_response(b, 0) {
        None => None,
        Some((r, p)) => if p == b.len() {
            Some(r)
        } else {
            None
        },
    }
}

// ---------------------------------------------------------------------
// Encoding.  Each helper appends one value's encoding to the buffer.
// ---------------------------------------------------------------------

fn enc_u64_into(out: &mut Vec<u8>, x: u64)
    ensures
        final(out)@ == old(out)@ + spec_enc_u64(x),
{
    let mut bytes = u64_to_le_bytes(x);
    out.append(&mut bytes);
}

fn enc_bool_into(out: &mut Vec<u8>, b: bool)
    ensures
        final(out)@ == old(out)@ + spec_enc_bool(b),
{
    out.push(if b { 1u8 } else { 0u8 });
    proof {
        assert(out@ =~= old(out)@ + spec_enc_bool(b));
    }
}

fn enc_str_into(out: &mut Vec<u8>, s: &str)
    ensures
        final(out)@ == old(out)@ + spec_enc_str(s@),
{
    let mut bytes = s.as_bytes_vec();
    let n = bytes.len();
    enc_u64_into(out, n as u64);
    out.append(&mut bytes);
    proof {
        assert(out@ =~= old(out)@ + spec_enc_str(s@));
    }
}

fn enc_opt_str_into(out: &mut Vec<u8>, s: &Option<String>)
    ensures
        final(out)@ == old(out)@ + spec_enc_opt_str(view_opt_string(*s)),
{
    match s {
        None => {
            out.push(0u8);
            proof {
                assert(out@ =~= old(out)@ + spec_enc_opt_str(view_opt_string(*s)));
            }
        },
        Some(t) => {
            out.push(1u8);
            enc_str_into(out, t.as_str());
            proof {
                assert(out@ =~= old(out)@ + spec_enc_opt_str(view_opt_string(*s)));
            }
        },
    }
}

fn enc_opt_u64_into(out: &mut Vec<u8>, x: &Option<u64>)
    ensures
        final(out)@ == old(out)@ + spec_enc_opt_u64(*x),
{
    match x {
        None => {
            out.push(0u8);
            proof {
                assert(out@ =~= old(out)@ + spec_enc_opt_u64(*x));
            }
        },
        Some(v) => {
            out.push(1u8);
            enc_u64_into(out, *v);
            proof {
                assert(out@ =~= old(out)@ + spec_enc_opt_u64(*x));
            }
        },
    }
}

fn enc_info_into(out: &mut Vec<u8>, i: &ProviderInfo)
    ensures
        final(out)@ == old(out)@ + spec_enc_info(i@),
{
    enc_str_into(out, i.name.as_str());
    enc_str_into(out, i.icon.as_str());
    proof {
        assert(out@ =~= old(out)@ + spec_enc_info(i@));
    }
}

fn enc_entry_into(out: &mut Vec<u8>, e: &MatchEntry)
    ensures
        final(out)@ == old(out)@ + spec_enc_entry(e@),
{
    enc_str_into(out, e.title.as_str());
    enc_opt_str_into(out, &e.description);
    enc_opt_str_into(out, &e.icon);
    enc_opt_u64_into(out, &e.id);
    enc_bool_into(out, e.rich_text);
    proof {
        assert(out@ =~= old(out)@ + spec_enc_entry(e@));
    }
}

/// One item more at the end of a run of encoded provider descriptions.
proof fn lemma_enc_infos_snoc(l: Seq<ProviderInfoV>, i: int)
    requires
        0 <= i < l.len(),
    ensures
        spec_enc_infos(l.take(i + 1)) == spec_enc_infos(l.take(i)) + spec_enc_info(l[i]),
    decreases i,
{
    if i == 0 {
        assert(l.take(1) =~= seq![l[0]]);
        assert(l.take(1).skip(1) =~= Seq::<ProviderInfoV>::empty());
        assert(l.take(0) =~= Seq::<ProviderInfoV>::empty());
        assert(spec_enc_infos(l.take(1)) =~= spec_enc_infos(l.take(0)) + spec_enc_info(l[0]));
    } else {
        lemma_enc_infos_snoc(l.skip(1), i - 1);
        assert(l.take(i + 1).skip(1) =~= l.skip(1).take(i));
        assert(l.take(i).skip(1) =~= l.skip(1).take(i - 1));
        assert(l.take(i)[0] == l[0]);
        assert(l.take(i + 1)[0] == l[0]);
        assert(spec_enc_infos(l.take(i + 1)) == spec_enc_info(l[0]) + spec_enc_infos(
            l.skip(1).take(i),
        ));
        assert(spec_enc_info(l[0]) + (spec_enc_infos(l.skip(1).take(i - 1)) + spec_enc_info(
            l.skip(1)[i - 1],
        )) =~= (spec_enc_info(l[0]) + spec_enc_infos(l.skip(1).take(i - 1))) + spec_enc_info(
            l[i],
        ));
        assert(spec_enc_infos(l.take(i)) == spec_enc_info(l[0]) + spec_enc_infos(
            l.skip(1).take(i - 1),
        ));
    }
}

/// One item more at the end of a run of encoded entries.
proof fn lemma_enc_entries_snoc(l: Seq<MatchEntryV>, i: int)
    requires
        0 <= i < l.len(),
    ensures
        spec_enc_entries(l.take(i + 1)) == spec_enc_entries(l.take(i)) + spec_enc_entry(l[i]),
    decreases i,
{
    if i == 0 {
        assert(l.take(1) =~= seq![l[0]]);
        assert(l.take(1).skip(1) =~= Seq::<MatchEntryV>::empty());
        assert(l.take(0) =~= Seq::<MatchEntryV>::empty());
        assert(spec_enc_entries(l.take(1)) =~= spec_enc_entries(l.take(0)) + spec_enc_entry(
            l[0],
        ));
    } else {
        lemma_enc_entries_snoc(l.skip(1), i - 1);
        assert(l.take(i + 1).skip(1) =~= l.skip(1).take(i));
        assert(l.take(i).skip(1) =~= l.skip(1).take(i - 1));
        assert(l.take(i)[0] == l[0]);
        assert(l.take(i + 1)[0] == l[0]);
        assert(spec_enc_entries(l.take(i + 1)) == spec_enc_entry(l[0]) + spec_enc_entries(
            l.skip(1).take(i),
        ));
        assert(spec_enc_entry(l[0]) + (spec_enc_entries(l.skip(1).take(i - 1)) + spec_enc_entry(
            l.skip(1)[i - 1],
        )) =~= (spec_enc_entry(l[0]) + spec_enc_entries(l.skip(1).take(i - 1))) + spec_enc_entry(
            l[i],
        ));
        assert(spec_enc_entries(l.take(i)) == spec_enc_entry(l[0]) + spec_enc_entries(
            l.skip(1).take(i - 1),
        ));
    }
}

fn enc_info_list_into(out: &mut Vec<u8>, l: &Vec<ProviderInfo>)
    ensures
        final(out)@ == old(out)@ + spec_enc_info_list(crate::protocol::view_infos(l@)),
{
    let ghost lv = crate::protocol::view_infos(l@);
    let n = l.len();
    enc_u64_into(out, n as u64);
    let mut i: usize = 0;
    proof {
        assert(lv.take(0) =~= Seq::<ProviderInfoV>::empty());
    }
    while i < n
        invariant
            0 <= i <= n,
            n == l@.len(),
            lv == crate::protocol::view_infos(l@),
            lv.len() == n,
            out@ == old(out)@ + spec_enc_u64(n as u64) + spec_enc_infos(lv.take(i as int)),
        decreases n - i,
    {
        enc_info_into(out, &l[i]);
        proof {
            lemma_enc_infos_snoc(lv, i as int);
            assert(lv[i as int] == l@[i as int]@);
        }
        i = i + 1;
    }
    proof {
        assert(lv.take(n as int) =~= lv);
        assert(out@ =~= old(out)@ + spec_enc_info_list(lv));
    }
}

fn enc_entry_list_into(out: &mut Vec<u8>, l: &Vec<MatchEntry>)
    ensures
        final(out)@ == old(out)@ + spec_enc_entry_list(crate::protocol::view_matches(l@)),
{
    let ghost lv = crate::protocol::view_matches(l@);
    let n = l.len();
    enc_u64_into(out, n as u64);
    let mut i: usize = 0;
    proof {
        assert(lv.take(0) =~= Seq::<MatchEntryV>::empty());
    }
    while i < n
        invariant
            0 <= i <= n,
            n == l@.len(),
            lv == crate::protocol::view_matches(l@),
            lv.len() == n,
            out@ == old(out)@ + spec_enc_u64(n as u64) + spec_enc_entries(lv.take(i as int)),
        decreases n - i,
    {
        enc_entry_into(out, &l[i]);
        proof {
            lemma_enc_entries_snoc(lv, i as int);
            assert(lv[i as int] == l@[i as int]@);
        }
        i = i + 1;
    }
    proof {
        assert(lv.take(n as int) =~= lv);
        assert(out@ =~= old(out)@ + spec_enc_entry_list(lv));
    }
}

fn enc_outcome_into(out: &mut Vec<u8>, o: &HandleOutcome)
    ensures
        final(out)@ == old(out)@ + spec_enc_outcome(o@),
{
    match o {
        HandleOutcome::Close => {
            out.push(1u8);
            proof {
                assert(out@ =~= old(out)@ + spec_enc_outcome(o@));
            }
        },
        HandleOutcome::KeepOpen => {
            out.push(2u8);
            proof {
                assert(out@ =~= old(out)@ + spec_enc_outcome(o@));
            }
        },
        HandleOutcome::RefreshQuery(t) => {
            out.push(3u8);
            enc_str_into(out, t.as_str());
            proof {
                assert(out@ =~= old(out)@ + spec_enc_outcome(o@));
            }
        },
    }
}

/// Encodes one client request as a self-contained frame body.
pub fn encode_request(r: &Request) -> (out: Vec<u8>)
    ensures
        out@ == spec_enc_request(r@),
{
    let mut out: Vec<u8> = Vec::new();
    match r {
        Request::Query(t) => {
            out.push(1u8);
            enc_str_into(&mut out, t.as_str());
        },
        Request::Handle { provider, selection } => {
            out.push(2u8);
            enc_info_into(&mut out, provider);
            enc_entry_into(&mut out, selection);
        },
        Request::Reset => {
            out.push(3u8);
        },
        Request::Quit => {
            out.push(4u8);
        },
    }
    proof {
        assert(out@ =~= spec_enc_request(r@));
    }
    out
}

/// Encodes one broker response as a self-contained frame body.
pub fn encode_response(r: &Response) -> (out: Vec<u8>)
    ensures
        out@ == spec_enc_response(r@),
{
    let mut out: Vec<u8> = Vec::new();
    match r {
        Response::Ready { providers } => {
            out.push(1u8);
            enc_info_list_into(&mut out, providers);
        },
        Response::Matches { provider, entries } => {
            out.push(2u8);
            enc_info_into(&mut out, provider);
            enc_entry_list_into(&mut out, entries);
        },
        Response::Handled { provider, outcome } => {
            out.push(3u8);
            enc_info_into(&mut out, provider);
            enc_outcome_into(&mut out, outcome);
        },
    }
    proof {
        assert(out@ =~= spec_enc_response(r@));
    }
    out
}

// ---------------------------------------------------------------------
// Decoding.  Each helper reads one value at a position and reports the
// position after it, exactly as the specification parsers say.
// ---------------------------------------------------------------------

/// Relies on String::from_utf8: builds the string whose UTF-8 encoding is
/// the given bytes, and fails exactly on bytes that are not valid UTF-8.
#[verifier::external_body]
fn bytes_to_string(v: Vec<u8>) -> (r: Option<String>)
    ensures
        (match r {
            Some(s) => valid_utf8(v@) && encode_utf8(s@) == v@,
            None => !valid_utf8(v@),
        }),
{
    match String::from_utf8(v) {
        Ok(s) => Some(s),
        Err(_) => None,
    }
}

fn parse_u8_at(b: &Vec<u8>, pos: usize) -> (r: Option<(u8, usize)>)
    ensures
        (match (r, spec_parse_u8(b@, pos as int)) {
            (Some(e), Some(g)) => e.0 == g.0 && e.1 == g.1,
            (None, None) => true,
            _ => false,
        }),
{
    if pos < b.len() {
        Some((b[pos], pos + 1))
    } else {
        None
    }
}

fn parse_u64_at(b: &Vec<u8>, pos: usize) -> (r: Option<(u64, usize)>)
    ensures
        (match (r, spec_parse_u64(b@, pos as int)) {
            (Some(e), Some(g)) => e.0 == g.0 && e.1 == g.1,
            (None, None) => true,
            _ => false,
        }),
{
    if pos <= b.len() && b.len() - pos >= 8 {
        let sl = slice_subrange(b.as_slice(), pos, pos + 8);
        let x = u64_from_le_bytes(sl);
        Some((x, pos + 8))
    } else {
        None
    }
}

fn parse_bool_at(b: &Vec<u8>, pos: usize) -> (r: Option<(bool, usize)>)
    ensures
        (match (r, spec_parse_bool(b@, pos as int)) {
            (Some(e), Some(g)) => e.0 == g.0 && e.1 == g.1,
            (None, None) => true,
            _ => false,
        }),
{
    match parse_u8_at(b, pos) {
        None => None,
        Some((t, p)) => if t == 0 {
            Some((false, p))
        } else if t == 1 {
            Some((true, p))
        } else {
            None
        },
    }
}

fn parse_str_at(b: &Vec<u8>, pos: usize) -> (r: Option<(String, usize)>)
    ensures
        (match (r, spec_parse_str(b@, pos as int)) {
            (Some(e), Some(g)) => e.0@ == g.0 && e.1 == g.1,
            (None, None) => true,
            _ => false,
        }),
{
    match parse_u64_at(b, pos) {
        None => None,
        Some((n, p)) => {
            if n <= (b.len() - p) as u64 {
                let count = n as usize;
                let sl = slice_subrange(b.as_slice(), p, p + count);
                let bytes = slice_to_vec(sl);
                let ghost byte_view = b@.subrange(p as int, p + n as int);
                proof {
                    assert(bytes@ =~= byte_view);
                }
                match bytes_to_string(bytes) {
                    Some(s) => {
                        proof {
                            encode_utf8_decode_utf8(s@);
                        }
                        Some((s, p + count))
                    },
                    None => None,
                }
            } else {
                None
            }
        },
    }
}

fn parse_opt_str_at(b: &Vec<u8>, pos: usize) -> (r: Option<(Option<String>, usize)>)
    ensures
        (match (r, spec_parse_opt_str(b@, pos as int)) {
            (Some(e), Some(g)) => view_opt_string(e.0) == g.0 && e.1 == g.1,
            (None, None) => true,
            _ => false,
        }),
{
    match parse_u8_at(b, pos) {
        None => None,
        Some((t, p)) => if t == 0 {
            Some((None, p))
        } else if t == 1 {
            match parse_str_at(b, p) {
                None => None,
                Some((s, p2)) => Some((Some(s), p2)),
            }
        } else {
            None
        },
    }
}

fn parse_opt_u64_at(b: &Vec<u8>, pos: usize) -> (r: Option<(Option<u64>, usize)>)
    ensures
        (match (r, spec_parse_opt_u64(b@, pos as int)) {
            (Some(e), Some(g)) => e.0 == g.0 && e.1 == g.1,
            (None, None) => true,
            _ => false,
        }),
{
    match parse_u8_at(b, pos) {
        None => None,
        Some((t, p)) => if t == 0 {
            Some((None, p))
        } else if t == 1 {
            match parse_u64_at(b, p) {
                None => None,
                Some((x, p2)) => Some((Some(x), p2)),
            }
        } else {
            None
        },
    }
}

fn parse_info_at(b: &Vec<u8>, pos: usize) -> (r: Option<(ProviderInfo, usize)>)
    ensures
        (match (r, spec_parse_info(b@, pos as int)) {
            (Some(e), Some(g)) => e.0@ == g.0 && e.1 == g.1,
            (None, None) => true,
            _ => false,
        }),
{
    match parse_str_at(b, pos) {
        None => None,
        Some((name, p)) => match parse_str_at(b, p) {
            None => None,
            Some((icon, p2)) => Some((ProviderInfo { name, icon }, p2)),
        },
    }
}

fn parse_entry_at(b: &Vec<u8>, pos: usize) -> (r: Option<(MatchEntry, usize)>)
    ensures
        (match (r, spec_parse_entry(b@, pos as int)) {
            (Some(e), Some(g)) => e.0@ == g.0 && e.1 == g.1,
            (None, None) => true,
            _ => false,
        }),
{
    match parse_str_at(b, pos) {
        None => None,
        Some((title, p1)) => match parse_opt_str_at(b, p1) {
            None => None,
            Some((description, p2)) => match parse_opt_str_at(b, p2) {
                None => None,
                Some((icon, p3)) => match parse_opt_u64_at(b, p3) {
                    None => None,
                    Some((id, p4)) => match parse_bool_at(b, p4) {
                        None => None,
                        Some((rich_text, p5)) => Some((
                            MatchEntry { title, description, icon, id, rich_text },
                            p5,
                        )),
                    },
                },
            },
        },
    }
}

fn parse_info_list_at(b: &Vec<u8>, pos: usize) -> (r: Option<(Vec<ProviderInfo>, usize)>)
    ensures
        (match (r, spec_parse_info_list(b@, pos as int)) {
            (Some(e), Some(g)) => crate::protocol::view_infos(e.0@) == g.0 && e.1 == g.1,
            (None, None) => true,
            _ => false,
        }),
{
    match parse_u64_at(b, pos) {
        None => None,
        Some((n, p0)) => {
            let mut out: Vec<ProviderInfo> = Vec::new();
            let mut p = p0;
            let mut i: u64 = 0;
            loop
                invariant
                    spec_parse_u64(b@, pos as int) == Some((n, p0 as int)),
                    0 <= i <= n,
                    out@.len() == i,
                    (match spec_parse_infos(b@, p as int, (n - i) as nat) {
                        Some(g) => spec_parse_infos(b@, p0 as int, n as nat) matches Some(w)
                            && w.0 == crate::protocol::view_infos(out@) + g.0 && w.1 == g.1,
                        None => spec_parse_infos(b@, p0 as int, n as nat) is None,
                    }),
                ensures
                    spec_parse_infos(b@, p0 as int, n as nat) matches Some(g)
                        && crate::protocol::view_infos(out@) == g.0 && p == g.1,
                decreases n - i,
            {
                if i == n {
                    proof {
                        assert(spec_parse_infos(b@, p as int, 0) == Some((
                            Seq::<ProviderInfoV>::empty(),
                            p as int,
                        )));
                        assert(crate::protocol::view_infos(out@)
                            + Seq::<ProviderInfoV>::empty()
                            =~= crate::protocol::view_infos(out@));
                    }
                    break;
                }
                match parse_info_at(b, p) {
                    None => {
                        proof {
                            assert(spec_parse_infos(b@, p as int, (n - i) as nat) is None);
                        }
                        return None;
                    },
                    Some((v, p2)) => {
                        proof {
                            let rest = spec_parse_infos(b@, p2 as int, (n - i - 1) as nat);
                            match rest {
                                Some(g) => {
                                    assert(crate::protocol::view_infos(out@.push(v))
                                        =~= crate::protocol::view_infos(out@) + seq![v@]);
                                    assert(crate::protocol::view_infos(out@) + (seq![v@] + g.0)
                                        =~= (crate::protocol::view_infos(out@) + seq![v@])
                                            + g.0);
                                },
                                None => {},
                            }
                        }
                        out.push(v);
                        p = p2;
                        i = i + 1;
                    },
                }
            }
            Some((out, p))
        },
    }
}

fn parse_entry_list_at(b: &Vec<u8>, pos: usize) -> (r: Option<(Vec<MatchEntry>, usize)>)
    ensures
        (match (r, spec_parse_entry_list(b@, pos as int)) {
            (Some(e), Some(g)) => crate::protocol::view_matches(e.0@) == g.0 && e.1 == g.1,
            (None, None) => true,
            _ => false,
        }),
{
    match parse_u64_at(b, pos) {
        None => None,
        Some((n, p0)) => {
            let mut out: Vec<MatchEntry> = Vec::new();
            let mut p = p0;
            let mut i: u64 = 0;
            loop
                invariant
                    spec_parse_u64(b@, pos as int) == Some((n, p0 as int)),
                    0 <= i <= n,
                    out@.len() == i,
                    (match spec_parse_entries(b@, p as int, (n - i) as nat) {
                        Some(g) => spec_parse_entries(b@, p0 as int, n as nat) matches Some(w)
                            && w.0 == crate::protocol::view_matches(out@) + g.0 && w.1 == g.1,
                        None => spec_parse_entries(b@, p0 as int, n as nat) is None,
                    }),
                ensures
                    spec_parse_entries(b@, p0 as int, n as nat) matches Some(g)
                        && crate::protocol::view_matches(out@) == g.0 && p == g.1,
                decreases n - i,
            {
                if i == n {
                    proof {
                        assert(spec_parse_entries(b@, p as int, 0) == Some((
                            Seq::<MatchEntryV>::empty(),
                            p as int,
                        )));
                        assert(crate::protocol::view_matches(out@)
                            + Seq::<MatchEntryV>::empty()
                            =~= crate::protocol::view_matches(out@));
                    }
                    break;
                }
                match parse_entry_at(b, p) {
                    None => {
                        proof {
                            assert(spec_parse_entries(b@, p as int, (n - i) as nat) is None);
                        }
                        return None;
                    },
                    Some((v, p2)) => {
                        proof {
                            let rest = spec_parse_entries(b@, p2 as int, (n - i - 1) as nat);
                            match rest {
                                Some(g) => {
                                    assert(crate::protocol::view_matches(out@.push(v))
                                        =~= crate::protocol::view_matches(out@) + seq![v@]);
                                    assert(crate::protocol::view_matches(out@) + (seq![v@]
                                        + g.0) =~= (crate::protocol::view_matches(out@)
                                        + seq![v@]) + g.0);
                                },
                                None => {},
                            }
                        }
                        out.push(v);
                        p = p2;
                        i = i + 1;
                    },
                }
            }
            Some((out, p))
        },
    }
}

fn parse_outcome_at(b: &Vec<u8>, pos: usize) -> (r: Option<(HandleOutcome, usize)>)
    ensures
        (match (r, spec_parse_outcome(b@, pos as int)) {
            (Some(e), Some(g)) => e.0@ == g.0 && e.1 == g.1,
            (None, None) => true,
            _ => false,
        }),
{
    match parse_u8_at(b, pos) {
        None => None,
        Some((t, p)) => if t == 1 {
            Some((HandleOutcome::Close, p))
        } else if t == 2 {
            Some((HandleOutcome::KeepOpen, p))
        } else if t == 3 {
            match parse_str_at(b, p) {
                None => None,
                Some((s, p2)) => Some((HandleOutcome::RefreshQuery(s), p2)),
            }
        } else {
            None
        },
    }
}

/// Decodes one frame body as a client request; anything else is a
/// protocol fault and yields nothing.
pub fn decode_request(b: &Vec<u8>) -> (r: Option<Request>)
    ensures
        (match (r, spec_decode_request(b@)) {
            (Some(req), Some(g)) => req@ == g,
            (None, None) => true,
            _ => false,
        }),
{
    let parsed = match parse_u8_at(b, 0) {
        None => None,
        Some((t, p)) => if t == 1 {
            match parse_str_at(b, p) {
                None => None,
                Some((s, p2)) => Some((Request::Query(s), p2)),
            }
        } else if t == 2 {
            match parse_info_at(b, p) {
                None => None,
                Some((provider, p2)) => match parse_entry_at(b, p2) {
                    None => None,
                    Some((selection, p3)) => Some((
                        Request::Handle { provider, selection },
                        p3,
                    )),
                },
            }
        } else if t == 3 {
            Some((Request::Reset, p))
        } else if t == 4 {
            Some((Request::Quit, p))
        } else {
            None
        },
    };
    match parsed {
        None => None,
        Some((req, p)) => if p == b.len() {
            Some(req)
        } else {
            None
        },
    }
}

/// Decodes one frame body as a broker response; anything else is a
/// protocol fault and yields nothing.
pub fn decode_response(b: &Vec<u8>) -> (r: Option<Response>)
    ensures
        (match (r, spec_decode_response(b@)) {
            (Some(resp), Some(g)) => resp@ == g,
            (None, None) => true,
            _ => false,
        }),
{
    let parsed = match parse_u8_at(b, 0) {
        None => None,
        Some((t, p)) => if t == 1 {
            match parse_info_list_at(b, p) {
                None => None,
                Some((providers, p2)) => Some((Response::Ready { providers }, p2)),
            }
        } else if t == 2 {
            match parse_info_at(b, p) {
                None => None,
                Some((provider, p2)) => match parse_entry_list_at(b, p2) {
                    None => None,
                    Some((entries, p3)) => Some((
                        Response::Matches { provider, entries },
                        p3,
                    )),
                },
            }
        } else if t == 3 {
            match parse_info_at(b, p) {
                None => None,
                Some((provider, p2)) => match parse_outcome_at(b, p2) {
                    None => None,
                    Some((outcome, p3)) => Some((
                        Response::Handled { provider, outcome },
                        p3,
                    )),
                },
            }
        } else {
            None
        },
    };
    match parsed {
        None => None,
        Some((resp, p)) => if p == b.len() {
            Some(resp)
        } else {
            None
        },
    }
}

// ---------------------------------------------------------------------
// Round trip: decoding an encoded message yields the message back.
// The only bounds asked for are the wire format's own: each length
// field must fit its eight bytes.
// ---------------------------------------------------------------------

/// The string's byte count fits the length field.
pub open spec fn str_ok(s: Seq<char>) -> bool {
    encode_utf8(s).len() <= u64::MAX
}

/// The optional string, if present, fits.
pub open spec fn opt_str_ok(s: Option<Seq<char>>) -> bool {
    match s {
        None => true,
        Some(t) => str_ok(t),
    }
}

/// Both strings of a provider description fit.
pub open spec fn info_ok(i: ProviderInfoV) -> bool {
    str_ok(i.name) && str_ok(i.icon)
}

/// Every string of an entry fits.
pub open spec fn entry_ok(e: MatchEntryV) -> bool {
    str_ok(e.title) && opt_str_ok(e.description) && opt_str_ok(e.icon)
}

/// The list's count and every item fit.
pub open spec fn infos_ok(l: Seq<ProviderInfoV>) -> bool {
    l.len() <= u64::MAX && forall|i: int| 0 <= i < l.len() ==> info_ok(#[trigger] l[i])
}

/// The list's count and every item fit.
pub open spec fn entries_ok(l: Seq<MatchEntryV>) -> bool {
    l.len() <= u64::MAX && forall|i: int| 0 <= i < l.len() ==> entry_ok(#[trigger] l[i])
}

/// The outcome's string, if any, fits.
pub open spec fn outcome_ok(o: HandleOutcomeV) -> bool {
    match o {
        HandleOutcomeV::RefreshQuery(t) => str_ok(t),
        _ => true,
    }
}

/// Every length field of the request fits its eight bytes.
pub open spec fn request_ok(r: RequestV) -> bool {
    match r {
        RequestV::Query(t) => str_ok(t),
        RequestV::Handle { provider, selection } => info_ok(provider) && entry_ok(selection),
        RequestV::Reset => true,
        RequestV::Quit => true,
    }
}

/// Every length field of the response fits its eight bytes.
pub open spec fn response_ok(r: ResponseV) -> bool {
    match r {
        ResponseV::Ready { providers } => infos_ok(providers),
        ResponseV::Matches { provider, entries } => info_ok(provider) && entries_ok(entries),
        ResponseV::Handled { provider, outcome } => info_ok(provider) && outcome_ok(outcome),
    }
}

/// A buffer that holds a concatenation at a position holds each part.
proof fn lemma_subrange_split(b: Seq<u8>, pos: int, e1: Seq<u8>, e2: Seq<u8>)
    requires
        0 <= pos,
        pos + e1.len() + e2.len() <= b.len(),
        b.subrange(pos, pos + e1.len() + e2.len()) == e1 + e2,
    ensures
        b.subrange(pos, pos + e1.len()) == e1,
        b.subrange(pos + e1.len(), pos + e1.len() + e2.len()) == e2,
{
    assert forall|i: int| 0 <= i < e1.len() implies b.subrange(pos, pos + e1.len())[i]
        == e1[i] by {
        assert(b.subrange(pos, pos + e1.len() + e2.len())[i] == (e1 + e2)[i]);
    }
    assert(b.subrange(pos, pos + e1.len()) =~= e1);
    assert forall|i: int| 0 <= i < e2.len() implies b.subrange(
        pos + e1.len(),
        pos + e1.len() + e2.len(),
    )[i] == e2[i] by {
        assert(b.subrange(pos, pos + e1.len() + e2.len())[e1.len() + i] == (e1 + e2)[e1.len()
            + i]);
        assert(b.subrange(pos, pos + e1.len() + e2.len())[e1.len() + i]
            == b[pos + e1.len() + i]);
        assert((e1 + e2)[e1.len() + i] == e2[i]);
        assert(b.subrange(pos + e1.len(), pos + e1.len() + e2.len())[i]
            == b[pos + e1.len() + i]);
    }
    assert(b.subrange(pos + e1.len(), pos + e1.len() + e2.len()) =~= e2);
}

proof fn lemma_parse_u8_at(b: Seq<u8>, pos: int, t: u8)
    requires
        0 <= pos,
        pos + 1 <= b.len(),
        b.subrange(pos, pos + 1) == seq![t],
    ensures
        spec_parse_u8(b, pos) == Some((t, pos + 1)),
{
    assert(b[pos] == b.subrange(pos, pos + 1)[0]);
}

proof fn lemma_parse_u64_at(b: Seq<u8>, pos: int, x: u64)
    requires
        0 <= pos,
        pos + 8 <= b.len(),
        b.subrange(pos, pos + 8) == spec_enc_u64(x),
    ensures
        spec_parse_u64(b, pos) == Some((x, pos + 8)),
{
    lemma_auto_spec_u64_to_from_le_bytes();
}

proof fn lemma_parse_bool_at(b: Seq<u8>, pos: int, v: bool)
    requires
        0 <= pos,
        pos + 1 <= b.len(),
        b.subrange(pos, pos + 1) == spec_enc_bool(v),
    ensures
        spec_parse_bool(b, pos) == Some((v, pos + 1)),
{
    lemma_parse_u8_at(b, pos, if v { 1u8 } else { 0u8 });
}

proof fn lemma_parse_str_at(b: Seq<u8>, pos: int, s: Seq<char>)
    requires
        0 <= pos,
        str_ok(s),
        pos + spec_enc_str(s).len() <= b.len(),
        b.subrange(pos, pos + spec_enc_str(s).len()) == spec_enc_str(s),
    ensures
        spec_parse_str(b, pos) == Some((s, pos + spec_enc_str(s).len())),
{
    let u = encode_utf8(s);
    let n = u.len() as u64;
    lemma_auto_spec_u64_to_from_le_bytes();
    lemma_subrange_split(b, pos, spec_enc_u64(n), u);
    lemma_parse_u64_at(b, pos, n);
    encode_utf8_valid_utf8(s);
    encode_utf8_decode_utf8(s);
    assert(b.subrange(pos + 8, pos + 8 + n) == u);
}

proof fn lemma_parse_opt_str_at(b: Seq<u8>, pos: int, s: Option<Seq<char>>)
    requires
        0 <= pos,
        opt_str_ok(s),
        pos + spec_enc_opt_str(s).len() <= b.len(),
        b.subrange(pos, pos + spec_enc_opt_str(s).len()) == spec_enc_opt_str(s),
    ensures
        spec_parse_opt_str(b, pos) == Some((s, pos + spec_enc_opt_str(s).len())),
{
    match s {
        None => {
            lemma_parse_u8_at(b, pos, 0u8);
        },
        Some(t) => {
            lemma_subrange_split(b, pos, seq![1u8], spec_enc_str(t));
            lemma_parse_u8_at(b, pos, 1u8);
            lemma_parse_str_at(b, pos + 1, t);
        },
    }
}

proof fn lemma_parse_opt_u64_at(b: Seq<u8>, pos: int, x: Option<u64>)
    requires
        0 <= pos,
        pos + spec_enc_opt_u64(x).len() <= b.len(),
        b.subrange(pos, pos + spec_enc_opt_u64(x).len()) == spec_enc_opt_u64(x),
    ensures
        spec_parse_opt_u64(b, pos) == Some((x, pos + spec_enc_opt_u64(x).len())),
{
    lemma_auto_spec_u64_to_from_le_bytes();
    match x {
        None => {
            lemma_parse_u8_at(b, pos, 0u8);
        },
        Some(v) => {
            lemma_subrange_split(b, pos, seq![1u8], spec_enc_u64(v));
            lemma_parse_u8_at(b, pos, 1u8);
            lemma_parse_u64_at(b, pos + 1, v);
        },
    }
}

proof fn lemma_parse_info_at(b: Seq<u8>, pos: int, i: ProviderInfoV)
    requires
        0 <= pos,
        info_ok(i),
        pos + spec_enc_info(i).len() <= b.len(),
        b.subrange(pos, pos + spec_enc_info(i).len()) == spec_enc_info(i),
    ensures
        spec_parse_info(b, pos) == Some((i, pos + spec_enc_info(i).len())),
{
    lemma_subrange_split(b, pos, spec_enc_str(i.name), spec_enc_str(i.icon));
    lemma_parse_str_at(b, pos, i.name);
    lemma_parse_str_at(b, pos + spec_enc_str(i.name).len(), i.icon);
}

proof fn lemma_parse_entry_at(b: Seq<u8>, pos: int, e: MatchEntryV)
    requires
        0 <= pos,
        entry_ok(e),
        pos + spec_enc_entry(e).len() <= b.len(),
        b.subrange(pos, pos + spec_enc_entry(e).len()) == spec_enc_entry(e),
    ensures
        spec_parse_entry(b, pos) == Some((e, pos + spec_enc_entry(e).len())),
{
    let e1 = spec_enc_str(e.title);
    let e2 = spec_enc_opt_str(e.description);
    let e3 = spec_enc_opt_str(e.icon);
    let e4 = spec_enc_opt_u64(e.id);
    let e5 = spec_enc_bool(e.rich_text);
    assert(spec_enc_entry(e) =~= e1 + (e2 + (e3 + (e4 + e5))));
    lemma_subrange_split(b, pos, e1, e2 + (e3 + (e4 + e5)));
    let p1 = pos + e1.len();
    assert(e2 + (e3 + (e4 + e5)) =~= e2 + (e3 + (e4 + e5)));
    lemma_subrange_split(b, p1, e2, e3 + (e4 + e5));
    let p2 = p1 + e2.len();
    lemma_subrange_split(b, p2, e3, e4 + e5);
    let p3 = p2 + e3.len();
    lemma_subrange_split(b, p3, e4, e5);
    let p4 = p3 + e4.len();
    lemma_parse_str_at(b, pos, e.title);
    lemma_parse_opt_str_at(b, p1, e.description);
    lemma_parse_opt_str_at(b, p2, e.icon);
    lemma_parse_opt_u64_at(b, p3, e.id);
    lemma_parse_bool_at(b, p4, e.rich_text);
}

proof fn lemma_parse_infos_at(b: Seq<u8>, pos: int, l: Seq<ProviderInfoV>)
    requires
        0 <= pos,
        forall|i: int| 0 <= i < l.len() ==> info_ok(#[trigger] l[i]),
        pos + spec_enc_infos(l).len() <= b.len(),
        b.subrange(pos, pos + spec_enc_infos(l).len()) == spec_enc_infos(l),
    ensures
        spec_parse_infos(b, pos, l.len()) == Some((l, pos + spec_enc_infos(l).len())),
    decreases l.len(),
{
    if l.len() == 0 {
    } else {
        lemma_subrange_split(b, pos, spec_enc_info(l[0]), spec_enc_infos(l.skip(1)));
        lemma_parse_info_at(b, pos, l[0]);
        let p1 = pos + spec_enc_info(l[0]).len();
        assert(forall|i: int| 0 <= i < l.skip(1).len() ==> info_ok(#[trigger] l.skip(1)[i]));
        lemma_parse_infos_at(b, p1, l.skip(1));
        assert(seq![l[0]] + l.skip(1) =~= l);
    }
}

proof fn lemma_parse_entries_at(b: Seq<u8>, pos: int, l: Seq<MatchEntryV>)
    requires
        0 <= pos,
        forall|i: int| 0 <= i < l.len() ==> entry_ok(#[trigger] l[i]),
        pos + spec_enc_entries(l).len() <= b.len(),
        b.subrange(pos, pos + spec_enc_entries(l).len()) == spec_enc_entries(l),
    ensures
        spec_parse_entries(b, pos, l.len()) == Some((l, pos + spec_enc_entries(l).len())),
    decreases l.len(),
{
    if l.len() == 0 {
    } else {
        lemma_subrange_split(b, pos, spec_enc_entry(l[0]), spec_enc_entries(l.skip(1)));
        lemma_parse_entry_at(b, pos, l[0]);
        let p1 = pos + spec_enc_entry(l[0]).len();
        assert(forall|i: int| 0 <= i < l.skip(1).len() ==> entry_ok(#[trigger] l.skip(1)[i]));
        lemma_parse_entries_at(b, p1, l.skip(1));
        assert(seq![l[0]] + l.skip(1) =~= l);
    }
}

proof fn lemma_parse_info_list_at(b: Seq<u8>, pos: int, l: Seq<ProviderInfoV>)
    requires
        0 <= pos,
        infos_ok(l),
        pos + spec_enc_info_list(l).len() <= b.len(),
        b.subrange(pos, pos + spec_enc_info_list(l).len()) == spec_enc_info_list(l),
    ensures
        spec_parse_info_list(b, pos) == Some((l, pos + spec_enc_info_list(l).len())),
{
    lemma_auto_spec_u64_to_from_le_bytes();
    lemma_subrange_split(b, pos, spec_enc_u64(l.len() as u64), spec_enc_infos(l));
    lemma_parse_u64_at(b, pos, l.len() as u64);
    lemma_parse_infos_at(b, pos + 8, l);
}

proof fn lemma_parse_entry_list_at(b: Seq<u8>, pos: int, l: Seq<MatchEntryV>)
    requires
        0 <= pos,
        entries_ok(l),
        pos + spec_enc_entry_list(l).len() <= b.len(),
        b.subrange(pos, pos + spec_enc_entry_list(l).len()) == spec_enc_entry_list(l),
    ensures
        spec_parse_entry_list(b, pos) == Some((l, pos + spec_enc_entry_list(l).len())),
{
    lemma_auto_spec_u64_to_from_le_bytes();
    lemma_subrange_split(b, pos, spec_enc_u64(l.len() as u64), spec_enc_entries(l));
    lemma_parse_u64_at(b, pos, l.len() as u64);
    lemma_parse_entries_at(b, pos + 8, l);
}

proof fn lemma_parse_outcome_at(b: Seq<u8>, pos: int, o: HandleOutcomeV)
    requires
        0 <= pos,
        outcome_ok(o),
        pos + spec_enc_outcome(o).len() <= b.len(),
        b.subrange(pos, pos + spec_enc_outcome(o).len()) == spec_enc_outcome(o),
    ensures
        spec_parse_outcome(b, pos) == Some((o, pos + spec_enc_outcome(o).len())),
{
    match o {
        HandleOutcomeV::Close => {
            lemma_parse_u8_at(b, pos, 1u8);
        },
        HandleOutcomeV::KeepOpen => {
            lemma_parse_u8_at(b, pos, 2u8);
        },
        HandleOutcomeV::RefreshQuery(t) => {
            lemma_subrange_split(b, pos, seq![3u8], spec_enc_str(t));
            lemma_parse_u8_at(b, pos, 3u8);
            lemma_parse_str_at(b, pos + 1, t);
        },
    }
}

/// Decoding inverts encoding: any request whose length fields fit the
/// wire format comes back unchanged from its own frame body.
#[verifier::rlimit(50)]
pub proof fn lemma_request_round_trip(r: RequestV)
    requires
        request_ok(r),
    ensures
        spec_decode_request(spec_enc_request(r)) == Some(r),
{
    let b = spec_enc_request(r);
    assert(b.subrange(0, b.len() as int) =~= b);
    match r {
        RequestV::Query(t) => {
            lemma_subrange_split(b, 0, seq![1u8], spec_enc_str(t));
            lemma_parse_u8_at(b, 0, 1u8);
            lemma_parse_str_at(b, 1, t);
        },
        RequestV::Handle { provider, selection } => {
            let e1 = spec_enc_info(provider);
            let e2 = spec_enc_entry(selection);
            assert(b =~= seq![2u8] + (e1 + e2));
            lemma_subrange_split(b, 0, seq![2u8], e1 + e2);
            lemma_parse_u8_at(b, 0, 2u8);
            lemma_subrange_split(b, 1, e1, e2);
            lemma_parse_info_at(b, 1, provider);
            lemma_parse_entry_at(b, 1 + e1.len() as int, selection);
        },
        RequestV::Reset => {
            lemma_parse_u8_at(b, 0, 3u8);
        },
        RequestV::Quit => {
            lemma_parse_u8_at(b, 0, 4u8);
        },
    }
}

/// Decoding inverts encoding: any response whose length fields fit the
/// wire format comes back unchanged from its own frame body.
#[verifier::rlimit(50)]
pub proof fn lemma_response_round_trip(r: ResponseV)
    requires
        response_ok(r),
    ensures
        spec_decode_response(spec_enc_response(r)) == Some(r),
{
    let b = spec_enc_response(r);
    assert(b.subrange(0, b.len() as int) =~= b);
    match r {
        ResponseV::Ready { providers } => {
            lemma_subrange_split(b, 0, seq![1u8], spec_enc_info_list(providers));
            lemma_parse_u8_at(b, 0, 1u8);
            lemma_parse_info_list_at(b, 1, providers);
        },
        ResponseV::Matches { provider, entries } => {
            let e1 = spec_enc_info(provider);
            let e2 = spec_enc_entry_list(entries);
            assert(b =~= seq![2u8] + (e1 + e2));
            lemma_subrange_split(b, 0, seq![2u8], e1 + e2);
            lemma_parse_u8_at(b, 0, 2u8);
            lemma_subrange_split(b, 1, e1, e2);
            lemma_parse_info_at(b, 1, provider);
            lemma_parse_entry_list_at(b, 1 + e1.len() as int, entries);
        },
        ResponseV::Handled { provider, outcome } => {
            let e1 = spec_enc_info(provider);
            let e2 = spec_enc_outcome(outcome);
            assert(b =~= seq![3u8] + (e1 + e2));
            lemma_subrange_split(b, 0, seq![3u8], e1 + e2);
            lemma_parse_u8_at(b, 0, 3u8);
            lemma_subrange_split(b, 1, e1, e2);
            lemma_parse_info_at(b, 1, provider);
            lemma_parse_outcome_at(b, 1 + e1.len() as int, outcome);
        },
    }
}

} // verus!
