//! Git smart-HTTP framing: pkt-lines, the ref advertisement of `info/refs`,
//! and the small decisions around the `git-upload-pack` and
//! `git-receive-pack` services.

use vstd::prelude::*;
use vstd::utf8::encode_utf8;
use crate::text::{concat2, hex_char, hex_lower, push_hex, str_equal, str_le, text_le};
use crate::text::{lemma_text_le_total, lemma_text_le_transitive};

verus! {

broadcast use vstd::seq_lib::group_to_multiset_ensures;

/// `k` zero digits.
pub open spec fn zeros(k: nat) -> Seq<char> {
    Seq::new(k, |i: int| '0')
}

/// `n` in lowercase hexadecimal, padded with zeros to at least four digits
/// (the `{:04x}` format).
pub open spec fn hex_pad4(n: nat) -> Seq<char> {
    let h = hex_lower(n);
    if h.len() < 4 {
        zeros((4 - h.len()) as nat) + h
    } else {
        h
    }
}

/// The number of bytes of the UTF-8 encoding of `s`.
pub open spec fn byte_len(s: Seq<char>) -> nat {
    encode_utf8(s).len()
}

/// A pkt-line: the payload prefixed by its length in bytes plus four,
/// written as (at least) four hexadecimal digits.
pub open spec fn spec_pkt_line(payload: Seq<char>) -> Seq<char> {
    hex_pad4(byte_len(payload) + 4) + payload
}

/// A payload of this text can be framed without the length overflowing.
pub open spec fn line_fits(s: Seq<char>) -> bool {
    byte_len(s) + 4 <= usize::MAX
}

proof fn lemma_hex_len_bound(n: nat)
    ensures
        hex_lower(n).len() <= n + 1,
        hex_lower(n).len() >= 1,
    decreases n,
{
    if n >= 16 {
        lemma_hex_len_bound(n / 16);
    }
}

fn hex_len(n: usize) -> (r: usize)
    ensures
        r == hex_lower(n as nat).len(),
    decreases n,
{
    proof {
        lemma_hex_len_bound(n as nat);
    }
    if n < 16 {
        1
    } else {
        proof {
            lemma_hex_len_bound((n / 16) as nat);
        }
        hex_len(n / 16) + 1
    }
}

/// Frames `payload` as a pkt-line, such as `000ahello\n` for `hello\n`.
pub fn pkt_line(payload: &str) -> (r: String)
    requires
        line_fits(payload@),
    ensures
        r@ == spec_pkt_line(payload@),
{
    let n = payload.len() + 4;
    let h = hex_len(n);
    let mut out = String::new();
    proof {
        reveal_strlit("0");
    }
    if h < 4 {
        let k = 4 - h;
        let mut j: usize = 0;
        while j < k
            invariant
                j <= k,
                out@ =~= zeros(j as nat),
            decreases k - j,
        {
            proof {
                reveal_strlit("0");
            }
            out.append("0");
            j = j + 1;
        }
    }
    push_hex(&mut out, n);
    out.append(payload);
    out
}

/// The capability list advertised with the first ref of `service`.
pub open spec fn spec_capabilities(service: Seq<char>) -> Seq<char> {
    if service == "git-upload-pack"@ {
        "multi_ack_detailed no-done side-band-64k thin-pack ofs-delta shallow deepen-since deepen-not include-tag symref=HEAD:refs/heads/main object-format=sha1 agent=twine/0.1"@
    } else if service == "git-receive-pack"@ {
        "report-status report-status-v2 delete-refs side-band-64k quiet atomic ofs-delta push-options object-format=sha1 agent=twine/0.1"@
    } else {
        "agent=twine/0.1"@
    }
}

/// The capability list advertised with the first ref of `service`.
pub fn capabilities_for_service(service: &str) -> (r: &'static str)
    ensures
        r@ == spec_capabilities(service@),
{
    if str_equal(service, "git-upload-pack") {
        "multi_ack_detailed no-done side-band-64k thin-pack ofs-delta shallow deepen-since deepen-not include-tag symref=HEAD:refs/heads/main object-format=sha1 agent=twine/0.1"
    } else if str_equal(service, "git-receive-pack") {
        "report-status report-status-v2 delete-refs side-band-64k quiet atomic ofs-delta push-options object-format=sha1 agent=twine/0.1"
    } else {
        "agent=twine/0.1"
    }
}

/// The views of a list of (object id, ref name) pairs.
pub open spec fn ref_views(refs: Seq<(String, String)>) -> Seq<(Seq<char>, Seq<char>)> {
    refs.map_values(|p: (String, String)| (p.0@, p.1@))
}

/// The first payload of an advertisement, naming the service.
pub open spec fn service_line(service: Seq<char>) -> Seq<char> {
    "# service="@ + service + "\n"@
}

/// The payload announcing the first ref, which carries the capabilities.
pub open spec fn first_ref_line(oid: Seq<char>, name: Seq<char>, caps: Seq<char>) -> Seq<char> {
    oid + " "@ + name + "\0"@ + caps + "\n"@
}

/// The payload announcing any later ref.
pub open spec fn ref_line(oid: Seq<char>, name: Seq<char>) -> Seq<char> {
    oid + " "@ + name + "\n"@
}

/// The pkt-lines announcing `refs`, none of them with capabilities.
pub open spec fn later_ref_lines(refs: Seq<(Seq<char>, Seq<char>)>) -> Seq<char>
    decreases refs.len(),
{
    if refs.len() == 0 {
        Seq::empty()
    } else {
        later_ref_lines(refs.drop_last()) + spec_pkt_line(ref_line(refs.last().0, refs.last().1))
    }
}

/// The pkt-lines announcing all refs: the first with the capabilities of
/// `service`, the others plain.
pub open spec fn all_ref_lines(service: Seq<char>, refs: Seq<(Seq<char>, Seq<char>)>) -> Seq<char> {
    if refs.len() == 0 {
        Seq::empty()
    } else {
        spec_pkt_line(first_ref_line(refs[0].0, refs[0].1, spec_capabilities(service)))
            + later_ref_lines(refs.skip(1))
    }
}

/// The whole `info/refs` advertisement: the service line, a flush packet,
/// the refs, and a final flush packet.
pub open spec fn spec_advertisement(service: Seq<char>, refs: Seq<(Seq<char>, Seq<char>)>) -> Seq<
    char,
> {
    spec_pkt_line(service_line(service)) + "0000"@ + all_ref_lines(service, refs) + "0000"@
}

/// Every payload of the advertisement can be framed.
pub open spec fn advertisement_fits(service: Seq<char>, refs: Seq<(Seq<char>, Seq<char>)>) -> bool {
    &&& line_fits(service_line(service))
    &&& refs.len() > 0 ==> line_fits(first_ref_line(refs[0].0, refs[0].1, spec_capabilities(service)))
    &&& forall|i: int| 1 <= i < refs.len() ==> #[trigger] line_fits(ref_line(refs[i].0, refs[i].1))
}

/// Builds the advertisement that `info/refs` answers for `service`, listing
/// `refs` as (object id, ref name) pairs in the given order.
pub fn build_advertisement(service: &str, refs: &[(String, String)]) -> (r: String)
    requires
        advertisement_fits(service@, ref_views(refs@)),
    ensures
        r@ == spec_advertisement(service@, ref_views(refs@)),
{
    let ghost views = ref_views(refs@);
    proof {
        reveal_strlit("# service=");
        reveal_strlit("\n");
        reveal_strlit("0000");
        reveal_strlit(" ");
        reveal_strlit("\0");
    }
    let mut head = concat2("# service=", service);
    head.append("\n");
    let mut output = pkt_line(head.as_str());
    output.append("0000");
    let caps = capabilities_for_service(service);
    let n = refs.len();
    if n > 0 {
        let mut first = refs[0].0.clone();
        first.append(" ");
        first.append(refs[0].1.as_str());
        first.append("\0");
        first.append(caps);
        first.append("\n");
        let framed = pkt_line(first.as_str());
        output.append(framed.as_str());
        let ghost start = output@;
        let mut i: usize = 1;
        assert(views.subrange(1, 1) =~= Seq::<(Seq<char>, Seq<char>)>::empty());
        while i < n
            invariant
                1 <= i <= n,
                n == refs@.len(),
                views == ref_views(refs@),
                advertisement_fits(service@, views),
                output@ == start + later_ref_lines(views.subrange(1, i as int)),
            decreases n - i,
        {
            let mut line = refs[i].0.clone();
            line.append(" ");
            line.append(refs[i].1.as_str());
            line.append("\n");
            assert(line_fits(ref_line(views[i as int].0, views[i as int].1)));
            let framed = pkt_line(line.as_str());
            output.append(framed.as_str());
            assert(views.subrange(1, i + 1).drop_last() =~= views.subrange(1, i as int));
            i = i + 1;
        }
        assert(views.subrange(1, n as int) =~= views.skip(1));
    }
    output.append("0000");
    output
}

} // verus!

verus! {

/// The refs are ordered by name, in the order of `String`.
pub open spec fn sorted_by_name(refs: Seq<(String, String)>) -> bool {
    forall|i: int, j: int| 0 <= i < j < refs.len() ==> text_le(#[trigger] refs[i].1@, #[trigger] refs[j].1@)
}

/// The pairs of `refs` whose ref name is `name`, in their order.
pub open spec fn refs_named(refs: Seq<(String, String)>, name: Seq<char>) -> Seq<(String, String)> {
    refs.filter(|p: (String, String)| p.1@ == name)
}

/// A list in which no pair has the ref name `name` has none to pick.
proof fn lemma_none_named(refs: Seq<(String, String)>, name: Seq<char>)
    requires
        forall|k: int| 0 <= k < refs.len() ==> (#[trigger] refs[k]).1@ != name,
    ensures
        refs_named(refs, name) == Seq::<(String, String)>::empty(),
    decreases refs.len(),
{
    reveal(Seq::filter);
    if refs.len() > 0 {
        lemma_none_named(refs.drop_last(), name);
    }
}

/// The pairs of `a + b` named `name` are those of `a`, then those of `b`.
proof fn lemma_named_concat(a: Seq<(String, String)>, b: Seq<(String, String)>, name: Seq<char>)
    ensures
        refs_named(a + b, name) == refs_named(a, name) + refs_named(b, name),
{
    Seq::filter_distributes_over_add(a, b, |p: (String, String)| p.1@ == name);
}

/// A single pair is picked exactly when it has the ref name `name`.
proof fn lemma_named_single(item: (String, String), name: Seq<char>)
    ensures
        refs_named(seq![item], name) == (if item.1@ == name {
            seq![item]
        } else {
            Seq::<(String, String)>::empty()
        }),
{
    reveal_with_fuel(Seq::filter, 2);
    assert(seq![item].drop_last() =~= Seq::<(String, String)>::empty());
}

/// Orders (object id, ref name) pairs by ref name. The sort is stable:
/// pairs with the same name keep their input order, so for every name the
/// pairs carrying it come out as they went in.
pub fn sort_refs_by_name(refs: Vec<(String, String)>) -> (r: Vec<(String, String)>)
    ensures
        r@.to_multiset() == refs@.to_multiset(),
        r@.len() == refs@.len(),
        sorted_by_name(r@),
        forall|name: Seq<char>| #[trigger] refs_named(r@, name) == refs_named(refs@, name),
{
    let mut out: Vec<(String, String)> = Vec::new();
    let n = refs.len();
    let mut i: usize = 0;
    while i < n
        invariant
            i <= n,
            n == refs@.len(),
            out@.to_multiset() == refs@.subrange(0, i as int).to_multiset(),
            out@.len() == i,
            sorted_by_name(out@),
            forall|name: Seq<char>| #[trigger] refs_named(out@, name) == refs_named(
                refs@.subrange(0, i as int),
                name,
            ),
        decreases n - i,
    {
        let item = (refs[i].0.clone(), refs[i].1.clone());
        assert(item == refs@[i as int]);
        let mut p: usize = 0;
        while p < out.len() && str_le(out[p].1.as_str(), item.1.as_str())
            invariant
                p <= out@.len(),
                forall|k: int| 0 <= k < p ==> text_le(#[trigger] out@[k].1@, item.1@),
            decreases out@.len() - p,
        {
            p = p + 1;
        }
        let ghost before = out@;
        proof {
            assert forall|k: int| p <= k < before.len() implies text_le(item.1@, #[trigger] before[k].1@) by {
                lemma_text_le_total(before[p as int].1@, item.1@);
                if k > p {
                    lemma_text_le_transitive(item.1@, before[p as int].1@, before[k].1@);
                }
            }
            assert forall|k: int| p <= k < before.len() implies (#[trigger] before[k]).1@ != item.1@ by {
                if before[k].1@ == item.1@ {
                    if k > p {
                        assert(text_le(before[p as int].1@, before[k].1@));
                    } else {
                        lemma_text_le_total(item.1@, item.1@);
                    }
                }
            }
        }
        out.insert(p, item);
        proof {
            let prior = refs@.subrange(0, i as int);
            assert(refs@.subrange(0, i + 1) =~= prior.push(refs@[i as int]));
            assert forall|a: int, b: int| 0 <= a < b < out@.len() implies text_le(
                #[trigger] out@[a].1@,
                #[trigger] out@[b].1@,
            ) by {
                if b == p {
                    assert(text_le(before[a].1@, item.1@));
                } else if a == p {
                    assert(text_le(item.1@, before[b - 1].1@));
                } else if a > p {
                    assert(text_le(before[a - 1].1@, before[b - 1].1@));
                } else if b > p {
                    assert(text_le(before[a].1@, before[b - 1].1@));
                } else {
                    assert(text_le(before[a].1@, before[b].1@));
                }
            }
            let head = before.take(p as int);
            let tail = before.skip(p as int);
            assert(before =~= head + tail);
            assert(out@ =~= head + seq![item] + tail);
            assert(refs@.subrange(0, i + 1) =~= prior + seq![item]);
            assert forall|name: Seq<char>| #[trigger] refs_named(out@, name) == refs_named(
                refs@.subrange(0, i + 1),
                name,
            ) by {
                lemma_named_concat(head, tail, name);
                lemma_named_concat(head + seq![item], tail, name);
                lemma_named_concat(head, seq![item], name);
                lemma_named_concat(prior, seq![item], name);
                lemma_named_single(item, name);
                assert(refs_named(before, name) == refs_named(prior, name));
                if item.1@ == name {
                    assert forall|k: int| 0 <= k < tail.len() implies (#[trigger] tail[k]).1@
                        != name by {
                        assert(tail[k] == before[p + k]);
                    }
                    lemma_none_named(tail, name);
                    assert(refs_named(head, name) + refs_named(tail, name) =~= refs_named(
                        head,
                        name,
                    ));
                    assert(refs_named(head, name) + seq![item] + refs_named(tail, name)
                        =~= refs_named(head, name) + refs_named(tail, name) + seq![item]);
                } else {
                    assert(refs_named(head, name) + Seq::<(String, String)>::empty()
                        =~= refs_named(head, name));
                    assert(refs_named(prior, name) + Seq::<(String, String)>::empty()
                        =~= refs_named(prior, name));
                }
            }
        }
        i = i + 1;
    }
    assert(refs@.subrange(0, n as int) =~= refs@);
    out
}

} // verus!

verus! {

/// The value of a lowercase hexadecimal digit.
pub open spec fn hex_digit_value(c: char) -> int {
    if '0' <= c && c <= '9' {
        c as int - 48
    } else if 'a' <= c && c <= 'f' {
        c as int - 87
    } else {
        0
    }
}

/// The number that the hexadecimal digits `s` spell.
pub open spec fn hex_value(s: Seq<char>) -> int
    decreases s.len(),
{
    if s.len() == 0 {
        0
    } else {
        hex_value(s.drop_last()) * 16 + hex_digit_value(s.last())
    }
}

proof fn lemma_hex_digit(d: nat)
    requires
        d < 16,
    ensures
        hex_digit_value(hex_char(d)) == d,
{
    if d < 10 {
        assert(((d + 48) as char) as int == d + 48);
    } else {
        assert(((d + 87) as char) as int == d + 87);
    }
}

proof fn lemma_hex_lower_value(n: nat)
    ensures
        hex_value(hex_lower(n)) == n,
    decreases n,
{
    lemma_hex_digit(n % 16);
    assert(n == (n / 16) * 16 + n % 16);
    let h = hex_lower(n);
    assert(h.last() == hex_char(n % 16));
    if n < 16 {
        assert(h.drop_last() =~= Seq::<char>::empty());
        assert(hex_value(h) == hex_value(h.drop_last()) * 16 + hex_digit_value(h.last()));
    } else {
        lemma_hex_lower_value(n / 16);
        assert(h.drop_last() =~= hex_lower(n / 16));
        assert(hex_value(h) == hex_value(h.drop_last()) * 16 + hex_digit_value(h.last()));
    }
}

proof fn lemma_zeros_value(k: nat, s: Seq<char>)
    ensures
        hex_value(zeros(k) + s) == hex_value(s),
    decreases s.len(), k,
{
    if s.len() == 0 {
        assert(zeros(k) + s =~= zeros(k));
        if k > 0 {
            assert(zeros(k).drop_last() =~= zeros((k - 1) as nat));
            lemma_zeros_value((k - 1) as nat, s);
            assert(zeros((k - 1) as nat) + s =~= zeros((k - 1) as nat));
        }
    } else {
        assert((zeros(k) + s).drop_last() =~= zeros(k) + s.drop_last());
        lemma_zeros_value(k, s.drop_last());
    }
}

proof fn lemma_hex_lower_short(n: nat)
    requires
        n <= 0xffff,
    ensures
        hex_lower(n).len() <= 4,
{
    reveal_with_fuel(hex_lower, 5);
    if n >= 16 {
        if n / 16 >= 16 {
            if n / 16 / 16 >= 16 {
                assert(n / 16 / 16 / 16 < 16);
            }
        }
    }
}

/// A pkt-line starts with exactly four hexadecimal digits that spell the
/// length of the whole line in bytes, followed by the payload unchanged,
/// whenever that length fits in four digits.
pub proof fn lemma_pkt_line_length_prefix(payload: Seq<char>)
    requires
        byte_len(payload) + 4 <= 0xffff,
    ensures
        spec_pkt_line(payload).len() == payload.len() + 4,
        hex_value(spec_pkt_line(payload).subrange(0, 4)) == byte_len(payload) + 4,
        spec_pkt_line(payload).subrange(4, spec_pkt_line(payload).len() as int) == payload,
{
    let n = byte_len(payload) + 4;
    lemma_hex_lower_short(n);
    lemma_hex_lower_value(n);
    let h = hex_lower(n);
    if h.len() < 4 {
        lemma_zeros_value((4 - h.len()) as nat, h);
    }
    assert(hex_pad4(n).len() == 4);
    assert(spec_pkt_line(payload).subrange(0, 4) =~= hex_pad4(n));
    assert(spec_pkt_line(payload).subrange(4, spec_pkt_line(payload).len() as int) =~= payload);
}

/// Every advertisement opens with the framed service line and a flush
/// packet, and closes with a flush packet.
pub proof fn lemma_advertisement_framing(service: Seq<char>, refs: Seq<(Seq<char>, Seq<char>)>)
    ensures
        ({
            let a = spec_advertisement(service, refs);
            let head = spec_pkt_line(service_line(service)) + "0000"@;
            &&& a.subrange(0, head.len() as int) == head
            &&& a.subrange(a.len() - 4, a.len() as int) == "0000"@
        }),
{
    reveal_strlit("0000");
    let a = spec_advertisement(service, refs);
    let head = spec_pkt_line(service_line(service)) + "0000"@;
    assert(a.subrange(0, head.len() as int) =~= head);
    assert(a.subrange(a.len() - 4, a.len() as int) =~= "0000"@);
}

} // verus!

verus! {

/// A character that may stand in an HTTP header value: a tab, or any
/// character other than the ASCII control characters.
pub open spec fn header_value_char(c: char) -> bool {
    c == '\t' || (c as int >= 32 && c as int != 127)
}

/// Every character of `s` may stand in an HTTP header value.
pub open spec fn header_value_text(s: Seq<char>) -> bool {
    forall|i: int| 0 <= i < s.len() ==> header_value_char(#[trigger] s[i])
}

/// Calls `http::HeaderValue::from_str` (re-exported by axum) and reports
/// whether it accepted `value`. That function accepts a string exactly when
/// every byte is a tab or at least 32 and not 127; since every byte of a
/// multi-byte UTF-8 character is at least 128, this is the same as every
/// character being a tab or not an ASCII control character.
#[verifier::external_body]
fn header_value_accepts(value: &str) -> (ok: bool)
    ensures
        ok == header_value_text(value@),
{
    axum::http::HeaderValue::from_str(value).is_ok()
}

/// The content type that a service response announces, before the fallback.
pub open spec fn content_type_text(service: Seq<char>, suffix: Seq<char>) -> Seq<char> {
    "application/x-"@ + service + "-"@ + suffix
}

/// The content type for `service` with `suffix` (`advertisement` or
/// `result`), or `application/octet-stream` where that text could not be a
/// header value.
pub open spec fn spec_service_content_type(service: Seq<char>, suffix: Seq<char>) -> Seq<char> {
    if header_value_text(content_type_text(service, suffix)) {
        content_type_text(service, suffix)
    } else {
        "application/octet-stream"@
    }
}

/// The content type for `service` with `suffix`, such as
/// `application/x-git-upload-pack-advertisement`.
pub fn service_content_type(service: &str, suffix: &str) -> (r: String)
    ensures
        r@ == spec_service_content_type(service@, suffix@),
{
    let mut value = concat2("application/x-", service);
    value.append("-");
    value.append(suffix);
    if header_value_accepts(value.as_str()) {
        value
    } else {
        "application/octet-stream".to_owned()
    }
}

/// The `git` subcommand that serves `service`, if it is one of the two
/// smart-HTTP services.
pub open spec fn spec_service_subcommand(service: Seq<char>) -> Option<Seq<char>> {
    if service == "git-upload-pack"@ {
        Some("upload-pack"@)
    } else if service == "git-receive-pack"@ {
        Some("receive-pack"@)
    } else {
        None
    }
}

/// The `git` subcommand that serves `service`: `upload-pack` or
/// `receive-pack`, or `None` for an unsupported service.
pub fn service_subcommand(service: &str) -> (r: Option<&'static str>)
    ensures
        r matches Some(c) ==> spec_service_subcommand(service@) == Some(c@),
        r is None ==> spec_service_subcommand(service@) is None,
{
    if str_equal(service, "git-upload-pack") {
        Some("upload-pack")
    } else if str_equal(service, "git-receive-pack") {
        Some("receive-pack")
    } else {
        None
    }
}

/// The policy hook that a push passes before `git-receive-pack` runs. It
/// currently admits every push.
pub fn enforce_push_policy(owner: &str, repo_name: &str, actor: &str, request_body: &[u8]) -> (r:
    Result<(), &'static str>)
    ensures
        r is Ok,
{
    Ok(())
}

} // verus!

verus! {

/// Announcing the refs of `a` and then those of `b` is announcing `a + b`:
/// every ref gets its own line, in order, none dropped or repeated.
pub proof fn lemma_later_ref_lines_concat(a: Seq<(Seq<char>, Seq<char>)>, b: Seq<(Seq<char>, Seq<char>)>)
    ensures
        later_ref_lines(a + b) == later_ref_lines(a) + later_ref_lines(b),
    decreases b.len(),
{
    if b.len() == 0 {
        assert(a + b =~= a);
        assert(later_ref_lines(a) + later_ref_lines(b) =~= later_ref_lines(a));
    } else {
        assert((a + b).drop_last() =~= a + b.drop_last());
        assert((a + b).last() == b.last());
        lemma_later_ref_lines_concat(a, b.drop_last());
        let last = spec_pkt_line(ref_line(b.last().0, b.last().1));
        assert(later_ref_lines(a) + later_ref_lines(b.drop_last()) + last =~= later_ref_lines(a)
            + (later_ref_lines(b.drop_last()) + last));
    }
}

/// A single ref is announced by the pkt-line of `<oid> <name>\n`.
pub proof fn lemma_later_ref_lines_single(oid: Seq<char>, name: Seq<char>)
    ensures
        later_ref_lines(seq![(oid, name)]) == spec_pkt_line(oid + " "@ + name + "\n"@),
{
    let s = seq![(oid, name)];
    assert(s.drop_last() =~= Seq::<(Seq<char>, Seq<char>)>::empty());
    assert(later_ref_lines(s.drop_last()) + spec_pkt_line(ref_line(oid, name)) =~= spec_pkt_line(
        ref_line(oid, name),
    ));
}

/// Every ref after the first is advertised: the advertisement is the
/// service line and a flush, the first ref's line with the capabilities,
/// the lines of the refs before the `i`-th, the pkt-line of
/// `<oid_i> <name_i>\n`, the lines of the refs after it, and a flush.
pub proof fn lemma_advertisement_lists_ref(
    service: Seq<char>,
    refs: Seq<(Seq<char>, Seq<char>)>,
    i: int,
)
    requires
        1 <= i < refs.len(),
    ensures
        spec_advertisement(service, refs) == spec_pkt_line(service_line(service)) + "0000"@
            + spec_pkt_line(first_ref_line(refs[0].0, refs[0].1, spec_capabilities(service)))
            + later_ref_lines(refs.subrange(1, i)) + spec_pkt_line(refs[i].0 + " "@ + refs[i].1 + "\n"@)
            + later_ref_lines(refs.subrange(i + 1, refs.len() as int)) + "0000"@,
{
    let before = refs.subrange(1, i);
    let after = refs.subrange(i + 1, refs.len() as int);
    assert(refs.skip(1) =~= before + seq![refs[i]] + after);
    lemma_later_ref_lines_concat(before + seq![refs[i]], after);
    lemma_later_ref_lines_concat(before, seq![refs[i]]);
    lemma_later_ref_lines_single(refs[i].0, refs[i].1);
    let head = spec_pkt_line(service_line(service)) + "0000"@;
    let first = spec_pkt_line(first_ref_line(refs[0].0, refs[0].1, spec_capabilities(service)));
    let mid = spec_pkt_line(refs[i].0 + " "@ + refs[i].1 + "\n"@);
    assert(head + (first + (later_ref_lines(before) + mid + later_ref_lines(after))) + "0000"@
        =~= head + first + later_ref_lines(before) + mid + later_ref_lines(after) + "0000"@);
}

} // verus!
