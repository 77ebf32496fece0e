//! Annex B (H.264/HEVC) access-unit splitting.
//!
//! The encoder writes an elementary stream: NAL units, each introduced by a
//! start code `00 00 01` (or `00 00 00 01`). The splitter cuts the stream into
//! NAL units and groups them into packets, each of which ends with a coded
//! slice (a VCL unit). Every NAL unit in a packet is preceded by the
//! four-byte start code.
use std::collections::VecDeque;
use vstd::prelude::*;

verus! {

/// The kind of elementary stream the encoder produces.
#[derive(Clone, Copy, PartialEq, Eq, Structural, Debug)]
pub enum CodecKind {
    H264,
    H265,
    Other,
}

// ---------------------------------------------------------------------------
// The stream model
// ---------------------------------------------------------------------------

/// A start code `00 00 01` begins at position `q` of `t`.
pub open spec fn is_start_code(t: Seq<u8>, q: int) -> bool {
    0 <= q && q + 2 < t.len() && t[q] == 0 && t[q + 1] == 0 && t[q + 2] == 1
}

/// The first start code at or after position `from`.
pub open spec fn next_start(t: Seq<u8>, from: int) -> Option<int>
    decreases t.len() - from,
{
    if from < 0 || from + 2 >= t.len() {
        None
    } else if is_start_code(t, from) {
        Some(from)
    } else {
        next_start(t, from + 1)
    }
}

/// `s` without its trailing zero bytes.
pub open spec fn strip_zeros(s: Seq<u8>) -> Seq<u8>
    decreases s.len(),
{
    if s.len() > 0 && s.last() == 0 {
        strip_zeros(s.drop_last())
    } else {
        s
    }
}

/// The NAL unit (if not empty) whose bytes lie between `from` and `to`.
pub open spec fn unit_between(t: Seq<u8>, from: int, to: int) -> Seq<Seq<u8>> {
    let p = strip_zeros(t.subrange(from, to));
    if p.len() > 0 { seq![p] } else { seq![] }
}

/// The NAL units completed after the start code at `q`: each ends where the
/// next start code begins.
pub open spec fn units_after(t: Seq<u8>, q: int) -> Seq<Seq<u8>>
    decreases t.len() - q,
{
    if q < 0 || q + 3 > t.len() {
        seq![]
    } else {
        match next_start(t, q + 3) {
            Some(r) => {
                proof {
                    lemma_next_start_found(t, q + 3);
                }
                unit_between(t, q + 3, r) + units_after(t, r)
            },
            None => seq![],
        }
    }
}

/// The last start code reached from the start code at `q`.
pub open spec fn chain_end(t: Seq<u8>, q: int) -> int
    decreases t.len() - q,
{
    if q < 0 || q + 3 > t.len() {
        q
    } else {
        match next_start(t, q + 3) {
            Some(r) => {
                proof {
                    lemma_next_start_found(t, q + 3);
                }
                chain_end(t, r)
            },
            None => q,
        }
    }
}

/// The NAL units of `t` that are complete: those followed by a start code.
pub open spec fn complete_units(t: Seq<u8>) -> Seq<Seq<u8>> {
    match next_start(t, 0) {
        Some(q) => units_after(t, q),
        None => seq![],
    }
}

/// The last NAL unit of a finished stream: the bytes after the last start
/// code, without trailing zeros.
pub open spec fn final_unit(t: Seq<u8>) -> Seq<Seq<u8>> {
    match next_start(t, 0) {
        Some(q) => unit_between(t, chain_end(t, q) + 3, t.len() as int),
        None => seq![],
    }
}

/// All NAL units of a finished stream.
pub open spec fn all_units(t: Seq<u8>) -> Seq<Seq<u8>> {
    complete_units(t) + final_unit(t)
}

/// Whether a NAL unit with header byte `h` carries a coded slice.
pub open spec fn is_vcl(kind: CodecKind, h: u8) -> bool {
    h < 128 && match kind {
        CodecKind::H264 => 1 <= h % 32 <= 5,
        CodecKind::H265 => (h / 2) % 64 <= 31,
        CodecKind::Other => true,
    }
}

/// A NAL unit with its four-byte start code.
pub open spec fn framed(u: Seq<u8>) -> Seq<u8> {
    seq![0u8, 0u8, 0u8, 1u8] + u
}

/// Grouping of NAL units: the packets closed so far, each ending with a VCL
/// unit, and the framed units still waiting for their slice.
pub open spec fn grouping(units: Seq<Seq<u8>>, kind: CodecKind) -> (Seq<Seq<u8>>, Seq<u8>)
    decreases units.len(),
{
    if units.len() == 0 {
        (seq![], seq![])
    } else {
        let (ps, g) = grouping(units.drop_last(), kind);
        let u = units.last();
        let g2 = g + framed(u);
        if u.len() > 0 && is_vcl(kind, u[0]) {
            (ps.push(g2), seq![])
        } else {
            (ps, g2)
        }
    }
}

/// The packets formed by `units`.
pub open spec fn packets(units: Seq<Seq<u8>>, kind: CodecKind) -> Seq<Seq<u8>> {
    grouping(units, kind).0
}

/// The packets of a finished stream: the closed packets, then the waiting
/// units as one last packet.
pub open spec fn final_packets(t: Seq<u8>, kind: CodecKind) -> Seq<Seq<u8>> {
    let (ps, g) = grouping(all_units(t), kind);
    if g.len() > 0 { ps.push(g) } else { ps }
}

pub open spec fn packet_views(q: Seq<Vec<u8>>) -> Seq<Seq<u8>> {
    q.map_values(|v: Vec<u8>| v@)
}

// ---------------------------------------------------------------------------
// Lemmas on the model
// ---------------------------------------------------------------------------

pub proof fn lemma_next_start_found(t: Seq<u8>, from: int)
    requires
        0 <= from,
    ensures
        next_start(t, from) matches Some(r) ==> {
            &&& from <= r
            &&& is_start_code(t, r)
            &&& forall|j: int| from <= j < r ==> !is_start_code(t, j)
        },
        next_start(t, from) is None ==> forall|j: int| from <= j ==> !is_start_code(t, j),
    decreases t.len() - from,
{
    if from + 2 >= t.len() {
    } else if is_start_code(t, from) {
    } else {
        lemma_next_start_found(t, from + 1);
    }
}

/// A start code found in a stream is still the first one after more bytes
/// arrive.
pub proof fn lemma_next_start_extend(t: Seq<u8>, d: Seq<u8>, from: int)
    requires
        next_start(t, from) is Some,
    ensures
        next_start(t + d, from) == next_start(t, from),
    decreases t.len() - from,
{
    let u = t + d;
    if is_start_code(t, from) {
        assert(is_start_code(u, from));
    } else {
        assert(!is_start_code(u, from));
        lemma_next_start_extend(t, d, from + 1);
    }
}

/// Start codes of a suffix are those of the whole stream, shifted.
pub proof fn lemma_next_start_shift(t: Seq<u8>, b: int, from: int)
    requires
        0 <= b <= t.len(),
        0 <= from,
    ensures
        next_start(t.skip(b), from) == (match next_start(t, b + from) {
            Some(r) => Some(r - b),
            None => None::<int>,
        }),
    decreases t.len() - from,
{
    let s = t.skip(b);
    if from + 2 >= s.len() {
    } else {
        assert(is_start_code(s, from) == is_start_code(t, b + from));
        if !is_start_code(s, from) {
            lemma_next_start_shift(t, b, from + 1);
        }
    }
}

pub proof fn lemma_units_after_shift(t: Seq<u8>, b: int, q: int)
    requires
        0 <= b <= q,
        is_start_code(t, q),
    ensures
        units_after(t.skip(b), q - b) == units_after(t, q),
        chain_end(t.skip(b), q - b) == chain_end(t, q) - b,
    decreases t.len() - q,
{
    let s = t.skip(b);
    lemma_next_start_shift(t, b, q - b + 3);
    lemma_next_start_found(t, q + 3);
    match next_start(t, q + 3) {
        Some(r) => {
            assert(s.subrange(q - b + 3, r - b) =~= t.subrange(q + 3, r));
            lemma_units_after_shift(t, b, r);
        },
        None => {},
    }
}

/// More bytes never change the units already completed after `q`; they only
/// add units after the last start code.
pub proof fn lemma_units_after_extend(t: Seq<u8>, d: Seq<u8>, q: int)
    requires
        is_start_code(t, q),
    ensures
        units_after(t + d, q) == units_after(t, q) + units_after(t + d, chain_end(t, q)),
        chain_end(t + d, q) == chain_end(t + d, chain_end(t, q)),
        is_start_code(t, chain_end(t, q)),
        next_start(t, chain_end(t, q) + 3) is None,
    decreases t.len() - q,
{
    let u = t + d;
    assert(is_start_code(u, q));
    lemma_next_start_found(t, q + 3);
    match next_start(t, q + 3) {
        Some(r) => {
            lemma_next_start_extend(t, d, q + 3);
            assert(u.subrange(q + 3, r) =~= t.subrange(q + 3, r));
            lemma_units_after_extend(t, d, r);
            assert(units_after(u, q) == unit_between(t, q + 3, r) + units_after(u, r));
            assert(units_after(t, q) == unit_between(t, q + 3, r) + units_after(t, r));
            assert(unit_between(t, q + 3, r) + (units_after(t, r) + units_after(u, chain_end(t, r)))
                =~= (unit_between(t, q + 3, r) + units_after(t, r)) + units_after(u, chain_end(t, r)));
        },
        None => {
            assert(units_after(t, q) =~= Seq::<Seq<u8>>::empty());
            assert(Seq::<Seq<u8>>::empty() + units_after(u, q) =~= units_after(u, q));
        },
    }
}

/// Packets once closed stay closed.
pub proof fn lemma_packets_prefix(a: Seq<Seq<u8>>, b: Seq<Seq<u8>>, kind: CodecKind)
    ensures
        packets(a, kind).len() <= packets(a + b, kind).len(),
        packets(a + b, kind).take(packets(a, kind).len() as int) == packets(a, kind),
    decreases b.len(),
{
    if b.len() == 0 {
        assert(a + b =~= a);
        assert(packets(a, kind).take(packets(a, kind).len() as int) =~= packets(a, kind));
    } else {
        lemma_packets_prefix(a, b.drop_last(), kind);
        assert((a + b).drop_last() =~= a + b.drop_last());
        let p1 = packets(a + b.drop_last(), kind);
        let p2 = packets(a + b, kind);
        let n = packets(a, kind).len() as int;
        assert(p2 == p1 || p2 == p1.push(p2.last()));
        if p2 != p1 {
            assert(p2.take(n) =~= p1.take(n));
        }
    }
}

/// Feeding more bytes only adds packets: the packets formed from a stream
/// are the first packets formed from any longer stream.
pub proof fn law_packets_grow(t: Seq<u8>, d: Seq<u8>, kind: CodecKind)
    ensures
        packets(complete_units(t), kind).len() <= packets(complete_units(t + d), kind).len(),
        packets(complete_units(t + d), kind).take(packets(complete_units(t), kind).len() as int)
            == packets(complete_units(t), kind),
{
    match next_start(t, 0) {
        Some(q) => {
            lemma_next_start_found(t, 0);
            lemma_next_start_extend(t, d, 0);
            lemma_units_after_extend(t, d, q);
            lemma_packets_prefix(units_after(t, q), units_after(t + d, chain_end(t, q)), kind);
        },
        None => {
            assert(complete_units(t) =~= Seq::<Seq<u8>>::empty());
            assert(Seq::<Seq<u8>>::empty() + complete_units(t + d) =~= complete_units(t + d));
            lemma_packets_prefix(Seq::<Seq<u8>>::empty(), complete_units(t + d), kind);
        },
    }
}

/// The packets `feed` appends when it is handed `d` after the bytes `t`:
/// those the longer stream closes beyond the ones `t` closed.
pub open spec fn fed_packets(t: Seq<u8>, d: Seq<u8>, kind: CodecKind) -> Seq<Seq<u8>> {
    packets(complete_units(t + d), kind).skip(packets(complete_units(t), kind).len() as int)
}

/// The packets `finish` appends after the bytes `t`.
pub open spec fn finished_packets(t: Seq<u8>, kind: CodecKind) -> Seq<Seq<u8>> {
    final_packets(t, kind).skip(packets(complete_units(t), kind).len() as int)
}

/// What feeding `pieces`, one after another, to a fresh splitter appends.
pub open spec fn pieces_output(pieces: Seq<Seq<u8>>, kind: CodecKind) -> Seq<Seq<u8>>
    decreases pieces.len(),
{
    if pieces.len() == 0 {
        seq![]
    } else {
        pieces_output(pieces.drop_last(), kind) + fed_packets(
            joined_bytes(pieces.drop_last()),
            pieces.last(),
            kind,
        )
    }
}

proof fn lemma_pieces_output(pieces: Seq<Seq<u8>>, kind: CodecKind)
    ensures
        pieces_output(pieces, kind) == packets(complete_units(joined_bytes(pieces)), kind),
    decreases pieces.len(),
{
    if pieces.len() == 0 {
        assert(complete_units(Seq::<u8>::empty()) =~= Seq::<Seq<u8>>::empty());
        assert(packets(Seq::<Seq<u8>>::empty(), kind) =~= Seq::<Seq<u8>>::empty());
    } else {
        let a = joined_bytes(pieces.drop_last());
        let d = pieces.last();
        lemma_pieces_output(pieces.drop_last(), kind);
        law_packets_grow(a, d, kind);
        let pa = packets(complete_units(a), kind);
        let pb = packets(complete_units(a + d), kind);
        assert(pb =~= pa + pb.skip(pa.len() as int));
    }
}

/// The packets of a stream that has not finished are a prefix of those of
/// the finished stream.
proof fn lemma_complete_packets_prefix(t: Seq<u8>, kind: CodecKind)
    ensures
        packets(complete_units(t), kind).len() <= final_packets(t, kind).len(),
        final_packets(t, kind).take(packets(complete_units(t), kind).len() as int) == packets(
            complete_units(t),
            kind,
        ),
{
    lemma_packets_prefix(complete_units(t), final_unit(t), kind);
    let n = packets(complete_units(t), kind).len() as int;
    let (ps, g) = grouping(all_units(t), kind);
    if g.len() > 0 {
        assert(ps.push(g).take(n) =~= ps.take(n));
    }
}

/// How the byte stream is cut into pieces never changes the packets: two
/// ways of cutting the same bytes, each fed piece by piece to a fresh
/// splitter, append the same packets, namely those of the whole stream; and
/// `finish` then appends the same packets to both, which completes the
/// packets of the finished stream.
pub proof fn law_pieces_do_not_matter(a: Seq<Seq<u8>>, b: Seq<Seq<u8>>, kind: CodecKind)
    requires
        joined_bytes(a) == joined_bytes(b),
    ensures
        pieces_output(a, kind) == pieces_output(b, kind),
        pieces_output(a, kind) == packets(complete_units(joined_bytes(a)), kind),
        pieces_output(a, kind) + finished_packets(joined_bytes(a), kind) == final_packets(
            joined_bytes(a),
            kind,
        ),
{
    lemma_pieces_output(a, kind);
    lemma_pieces_output(b, kind);
    let t = joined_bytes(a);
    lemma_complete_packets_prefix(t, kind);
    let n = packets(complete_units(t), kind).len() as int;
    assert(final_packets(t, kind) =~= final_packets(t, kind).take(n) + finished_packets(t, kind));
}

/// An HEVC NAL unit carries a coded slice exactly when its header byte is
/// below 64: the forbidden bit is clear and the unit type, the header's six
/// bits after it, is 0 to 31 (`TRAIL_N` = 0 included); 32 and up are
/// parameter sets and other non-slice units.
pub proof fn law_hevc_slice_headers(h: u8)
    ensures
        is_vcl(CodecKind::H265, h) <==> h < 64,
{
}

proof fn lemma_grouping_all_slices(us: Seq<Seq<u8>>, kind: CodecKind)
    requires
        forall|i: int| 0 <= i < us.len() ==> (#[trigger] us[i]).len() > 0 && is_vcl(kind, us[i][0]),
    ensures
        grouping(us, kind) == (framed_units(us), Seq::<u8>::empty()),
    decreases us.len(),
{
    if us.len() == 0 {
        assert(framed_units(us) =~= Seq::<Seq<u8>>::empty());
    } else {
        lemma_grouping_all_slices(us.drop_last(), kind);
        assert(us.last() == us[us.len() - 1]);
        assert(framed_units(us) =~= framed_units(us.drop_last()).push(framed(us.last())));
        assert(Seq::<u8>::empty() + framed(us.last()) =~= framed(us.last()));
    }
}

/// In an HEVC stream whose NAL units all have a header byte below 64 (all
/// coded slices, `TRAIL_N` included), every unit makes a packet of its
/// own: the packets of the finished stream are its units, one each, with
/// their start codes.
pub proof fn law_hevc_slices_make_one_packet_each(t: Seq<u8>)
    requires
        forall|i: int| 0 <= i < all_units(t).len() ==> (#[trigger] all_units(t)[i]).len() > 0
            && all_units(t)[i][0] < 64,
    ensures
        final_packets(t, CodecKind::H265) == framed_units(all_units(t)),
{
    lemma_grouping_all_slices(all_units(t), CodecKind::H265);
}

proof fn lemma_start_code_extend(t: Seq<u8>, d: Seq<u8>, q: int)
    requires
        is_start_code(t, q),
    ensures
        is_start_code(t + d, q),
{
}

/// The splitter keeps its bytes from the last start code on, or from the
/// zero byte just before it.
proof fn lemma_base_start(t: Seq<u8>, b: int, l: int)
    requires
        is_start_code(t, l),
        0 <= b,
        b == l || b == l - 1,
    ensures
        next_start(t, b) == Some(l),
{
    lemma_next_start_found(t, b);
    if b == l - 1 {
        assert(!is_start_code(t, b));
    }
}

proof fn lemma_strip_last_zero(s: Seq<u8>, e: int)
    requires
        0 < e <= s.len(),
        s[e - 1] == 0,
    ensures
        strip_zeros(s.take(e)) == strip_zeros(s.take(e - 1)),
{
    assert(s.take(e).drop_last() =~= s.take(e - 1));
}

/// Byte sequences joined in order.
pub open spec fn joined_bytes(ps: Seq<Seq<u8>>) -> Seq<u8>
    decreases ps.len(),
{
    if ps.len() == 0 {
        seq![]
    } else {
        joined_bytes(ps.drop_last()) + ps.last()
    }
}

/// NAL units, each with its four-byte start code.
pub open spec fn framed_units(us: Seq<Seq<u8>>) -> Seq<Seq<u8>> {
    us.map_values(|u: Seq<u8>| framed(u))
}

proof fn lemma_grouping_joined(us: Seq<Seq<u8>>, kind: CodecKind)
    ensures
        joined_bytes(grouping(us, kind).0) + grouping(us, kind).1 == joined_bytes(framed_units(us)),
    decreases us.len(),
{
    if us.len() == 0 {
        assert(framed_units(us) =~= Seq::<Seq<u8>>::empty());
        assert(joined_bytes(grouping(us, kind).0) + grouping(us, kind).1 =~= Seq::<u8>::empty());
    } else {
        let (ps, g) = grouping(us.drop_last(), kind);
        lemma_grouping_joined(us.drop_last(), kind);
        assert(framed_units(us).drop_last() =~= framed_units(us.drop_last()));
        assert(framed_units(us).last() == framed(us.last()));
        let g2 = g + framed(us.last());
        if us.last().len() > 0 && is_vcl(kind, us.last()[0]) {
            assert(ps.push(g2).drop_last() =~= ps);
            assert(joined_bytes(ps.push(g2)) + seq![] =~= joined_bytes(ps) + g + framed(us.last()));
        } else {
            assert(joined_bytes(ps) + g2 =~= joined_bytes(ps) + g + framed(us.last()));
        }
    }
}

/// The splitter loses, adds and reorders nothing: the packets of a
/// finished stream, joined, are its NAL units in order, each with a
/// four-byte start code.
pub proof fn law_packets_keep_every_unit(t: Seq<u8>, kind: CodecKind)
    ensures
        joined_bytes(final_packets(t, kind)) == joined_bytes(framed_units(all_units(t))),
{
    let (ps, g) = grouping(all_units(t), kind);
    lemma_grouping_joined(all_units(t), kind);
    if g.len() > 0 {
        assert(ps.push(g).drop_last() =~= ps);
    } else {
        assert(joined_bytes(ps) + g =~= joined_bytes(ps));
    }
}

/// A NAL unit that carries a coded slice.
pub open spec fn is_slice(kind: CodecKind, u: Seq<u8>) -> bool {
    u.len() > 0 && is_vcl(kind, u[0])
}

/// NAL units grouped into access units: the closed groups, each ending
/// with its slice, and the units still waiting for theirs.
pub open spec fn unit_groups(us: Seq<Seq<u8>>, kind: CodecKind) -> (Seq<Seq<Seq<u8>>>, Seq<Seq<u8>>)
    decreases us.len(),
{
    if us.len() == 0 {
        (seq![], seq![])
    } else {
        let (gs, open) = unit_groups(us.drop_last(), kind);
        let open2 = open.push(us.last());
        if is_slice(kind, us.last()) {
            (gs.push(open2), seq![])
        } else {
            (gs, open2)
        }
    }
}

/// Groups of units, flattened.
pub open spec fn flatten_groups(gs: Seq<Seq<Seq<u8>>>) -> Seq<Seq<u8>>
    decreases gs.len(),
{
    if gs.len() == 0 {
        seq![]
    } else {
        flatten_groups(gs.drop_last()) + gs.last()
    }
}

/// A group is an access unit: it ends with a slice and holds no other.
pub open spec fn access_unit(kind: CodecKind, g: Seq<Seq<u8>>) -> bool {
    &&& g.len() > 0
    &&& is_slice(kind, g.last())
    &&& forall|j: int| 0 <= j < g.len() - 1 ==> !is_slice(kind, #[trigger] g[j])
}

/// The bytes of a group: its units with their start codes.
pub open spec fn group_bytes(g: Seq<Seq<u8>>) -> Seq<u8> {
    joined_bytes(framed_units(g))
}

proof fn lemma_unit_groups(us: Seq<Seq<u8>>, kind: CodecKind)
    ensures
        ({
            let (gs, open) = unit_groups(us, kind);
            &&& grouping(us, kind).0 == gs.map_values(|g: Seq<Seq<u8>>| group_bytes(g))
            &&& grouping(us, kind).1 == group_bytes(open)
            &&& forall|i: int| 0 <= i < gs.len() ==> access_unit(kind, #[trigger] gs[i])
            &&& forall|j: int| 0 <= j < open.len() ==> !is_slice(kind, #[trigger] open[j])
            &&& flatten_groups(gs) + open == us
        }),
    decreases us.len(),
{
    if us.len() == 0 {
        assert(framed_units(Seq::<Seq<u8>>::empty()) =~= Seq::<Seq<u8>>::empty());
        assert(flatten_groups(Seq::<Seq<Seq<u8>>>::empty()) + Seq::<Seq<u8>>::empty() =~= us);
        assert(Seq::<Seq<Seq<u8>>>::empty().map_values(|g: Seq<Seq<u8>>| group_bytes(g)) =~= Seq::<Seq<u8>>::empty());
    } else {
        let u = us.last();
        let (gs, open) = unit_groups(us.drop_last(), kind);
        let (ps, b) = grouping(us.drop_last(), kind);
        lemma_unit_groups(us.drop_last(), kind);
        let open2 = open.push(u);
        // The bytes of the open group grow by the framed unit.
        assert(framed_units(open2).drop_last() =~= framed_units(open));
        assert(group_bytes(open2) == group_bytes(open) + framed(u));
        assert(flatten_groups(gs) + open2 =~= us) by {
            assert(us =~= us.drop_last().push(u));
            assert(flatten_groups(gs) + open2 =~= (flatten_groups(gs) + open).push(u));
        }
        if is_slice(kind, u) {
            let gs2 = gs.push(open2);
            assert(gs2.drop_last() =~= gs);
            assert(flatten_groups(gs2) + Seq::<Seq<u8>>::empty() =~= us);
            assert(gs2.map_values(|g: Seq<Seq<u8>>| group_bytes(g)) =~= gs.map_values(
                |g: Seq<Seq<u8>>| group_bytes(g),
            ).push(group_bytes(open2)));
            assert(framed_units(Seq::<Seq<u8>>::empty()) =~= Seq::<Seq<u8>>::empty());
            assert forall|i: int| 0 <= i < gs2.len() implies access_unit(kind, #[trigger] gs2[i]) by {
                if i == gs.len() {
                    assert(gs2[i] == open2);
                    assert forall|j: int| 0 <= j < open2.len() - 1 implies !is_slice(kind, #[trigger] open2[j]) by {
                        assert(open2[j] == open[j]);
                    }
                } else {
                    assert(gs2[i] == gs[i]);
                }
            }
        } else {
            assert forall|j: int| 0 <= j < open2.len() implies !is_slice(kind, #[trigger] open2[j]) by {
                if j < open.len() {
                    assert(open2[j] == open[j]);
                }
            }
        }
    }
}

/// The packets are access units: the packets of a finished stream are its
/// NAL units, in order, cut into groups that each end with their one
/// coded slice, then, as a last packet, the units after the last slice if
/// there are any.
pub proof fn law_packets_are_access_units(t: Seq<u8>, kind: CodecKind)
    ensures
        ({
            let (gs, open) = unit_groups(all_units(t), kind);
            &&& flatten_groups(gs) + open == all_units(t)
            &&& forall|i: int| 0 <= i < gs.len() ==> access_unit(kind, #[trigger] gs[i])
            &&& forall|j: int| 0 <= j < open.len() ==> !is_slice(kind, #[trigger] open[j])
            &&& final_packets(t, kind) == if open.len() > 0 {
                gs.push(open).map_values(|g: Seq<Seq<u8>>| group_bytes(g))
            } else {
                gs.map_values(|g: Seq<Seq<u8>>| group_bytes(g))
            }
        }),
{
    let us = all_units(t);
    let (gs, open) = unit_groups(us, kind);
    lemma_unit_groups(us, kind);
    let (ps, g) = grouping(us, kind);
    if open.len() > 0 {
        assert(gs.push(open).map_values(|x: Seq<Seq<u8>>| group_bytes(x)) =~= gs.map_values(
            |x: Seq<Seq<u8>>| group_bytes(x),
        ).push(group_bytes(open)));
        assert(framed_units(open).len() > 0);
        assert(framed_units(open).last() == framed(open.last()));
        assert(group_bytes(open).len() >= 4) by {
            assert(framed_units(open).drop_last() =~= framed_units(open.drop_last()));
        }
    } else {
        assert(framed_units(open) =~= Seq::<Seq<u8>>::empty());
    }
}

// ---------------------------------------------------------------------------
// The splitter
// ---------------------------------------------------------------------------

/// Cuts an elementary stream, fed in pieces, into packets.
pub struct AnnexB {
    buf: Vec<u8>,
    group: Vec<u8>,
    group_has_vcl: bool,
    kind: CodecKind,
    fed: Ghost<Seq<u8>>,
    base: Ghost<int>,
}

impl AnnexB {
    /// The bytes fed since the splitter was made or last finished.
    pub closed spec fn stream(&self) -> Seq<u8> {
        self.fed@
    }

    pub closed spec fn codec(&self) -> CodecKind {
        self.kind
    }

    /// The splitter's state matches the bytes fed.
    pub closed spec fn wf(&self) -> bool {
        let t = self.fed@;
        &&& 0 <= self.base@ <= t.len()
        &&& self.buf@ == t.skip(self.base@)
        &&& !self.group_has_vcl
        &&& self.group@ == grouping(complete_units(t), self.kind).1
        &&& match next_start(t, 0) {
            None => self.base@ == 0,
            Some(q) => self.base@ == chain_end(t, q) || self.base@ == chain_end(t, q) - 1,
        }
    }

    pub fn new(kind: CodecKind) -> (r: Self)
        ensures
            r.wf(),
            r.stream() == Seq::<u8>::empty(),
            r.codec() == kind,
    {
        let r = AnnexB {
            buf: Vec::new(),
            group: Vec::new(),
            group_has_vcl: false,
            kind,
            fed: Ghost(Seq::empty()),
            base: Ghost(0),
        };
        assert(r.buf@ =~= r.fed@.skip(0));
        assert(complete_units(Seq::<u8>::empty()) =~= Seq::<Seq<u8>>::empty());
        r
    }

    /// Takes the next piece of the stream and appends the packets it
    /// completes to `out`.
    pub fn feed(&mut self, data: &[u8], out: &mut VecDeque<Vec<u8>>)
        requires
            old(self).wf(),
        ensures
            final(self).wf(),
            final(self).codec() == old(self).codec(),
            final(self).stream() == old(self).stream() + data@,
            final(out)@.len() >= old(out)@.len(),
            final(out)@.take(old(out)@.len() as int) == old(out)@,
            packets(complete_units(final(self).stream()), final(self).codec()) == packets(
                complete_units(old(self).stream()),
                old(self).codec(),
            ) + packet_views(final(out)@.skip(old(out)@.len() as int)),
            packet_views(final(out)@.skip(old(out)@.len() as int)) == fed_packets(
                old(self).stream(),
                data@,
                old(self).codec(),
            ),
    {
        let ghost t0 = self.fed@;
        let ghost out0 = out@;
        self.buf.extend_from_slice(data);
        self.fed = Ghost(t0 + data@);
        proof {
            assert(self.buf@ =~= self.fed@.skip(self.base@));
            assert(self.fed@.take(t0.len() as int) =~= t0);
        }
        self.parse(out, Ghost(t0));
        proof {
            let p0 = packets(complete_units(t0), self.kind);
            let added = packet_views(out@.skip(out0.len() as int));
            assert((p0 + added).skip(p0.len() as int) =~= added);
        }
    }

    /// Ends the stream: appends the packets still held, including the unit
    /// after the last start code, and starts over with an empty stream.
    #[verifier::rlimit(60)]
    #[verifier::spinoff_prover]
    pub fn finish(&mut self, out: &mut VecDeque<Vec<u8>>)
        requires
            old(self).wf(),
        ensures
            final(self).wf(),
            final(self).codec() == old(self).codec(),
            final(self).stream() == Seq::<u8>::empty(),
            final(out)@.len() >= old(out)@.len(),
            final(out)@.take(old(out)@.len() as int) == old(out)@,
            final_packets(old(self).stream(), old(self).codec()) == packets(
                complete_units(old(self).stream()),
                old(self).codec(),
            ) + packet_views(final(out)@.skip(old(out)@.len() as int)),
            packet_views(final(out)@.skip(old(out)@.len() as int)) == finished_packets(
                old(self).stream(),
                old(self).codec(),
            ),
    {
        let ghost t = self.fed@;
        let ghost out0 = out@;
        proof {
            assert(t.take(t.len() as int) =~= t);
        }
        self.parse(out, Ghost(t));
        let ghost out1 = out@;
        let ghost cu = complete_units(t);
        let ghost b = self.base@;
        let ghost mut tail_units: Seq<Seq<u8>> = seq![];
        // The last NAL has no trailing start code; handle the tail at EOF.
        match Self::find_start(&self.buf, 0) {
            Some((pos, len)) => {
                proof {
                    lemma_next_start_found(self.buf@, 0);
                    lemma_next_start_shift(t, b, 0);
                    if next_start(t, 0) is None {
                        assert(t.skip(0) =~= t);
                    }
                    let q = next_start(t, 0)->0;
                    lemma_next_start_found(t, 0);
                    lemma_units_after_extend(t, Seq::<u8>::empty(), q);
                    let l = chain_end(t, q);
                    lemma_next_start_found(t, b);
                    assert(!is_start_code(t, l - 1));
                    assert(next_start(t, b) == Some(l));
                }
                let nal_start = pos + len;
                if nal_start < self.buf.len() {
                    let mut tail = slice_bytes(&self.buf, nal_start, self.buf.len());
                    let ghost whole = tail@;
                    let ghost mut e: int = whole.len() as int;
                    assert(whole.take(e) =~= whole);
                    while tail.len() > 0 && tail[tail.len() - 1] == 0
                        invariant
                            0 <= e <= whole.len(),
                            tail@ == whole.take(e),
                            strip_zeros(whole) == strip_zeros(whole.take(e)),
                        decreases tail.len(),
                    {
                        proof {
                            lemma_strip_last_zero(whole, e);
                        }
                        tail.pop();
                        proof {
                            e = e - 1;
                        }
                        assert(tail@ =~= whole.take(e));
                    }
                    assert(strip_zeros(whole) == tail@);
                    proof {
                        let q = next_start(t, 0)->0;
                        let l = chain_end(t, q);
                        assert(whole =~= t.subrange(l + 3, t.len() as int));
                    }
                    if tail.len() > 0 {
                        proof {
                            tail_units = seq![tail@];
                        }
                        self.push_nal(tail.as_slice(), out, Ghost(cu));
                    }
                } else {
                    proof {
                        let q = next_start(t, 0)->0;
                        let l = chain_end(t, q);
                        assert(t.subrange(l + 3, t.len() as int) =~= Seq::<u8>::empty());
                    }
                }
            },
            None => {
                proof {
                    lemma_next_start_shift(t, b, 0);
                    if next_start(t, 0) is Some {
                        let q = next_start(t, 0)->0;
                        lemma_next_start_found(t, 0);
                        lemma_units_after_extend(t, Seq::<u8>::empty(), q);
                        lemma_next_start_found(t, b);
                        assert(false);
                    }
                }
            },
        }
        let ghost out2 = out@;
        let ghost units = cu + tail_units;
        let ghost g = self.group@;
        assert(all_units(t) =~= units);
        assert(g == grouping(units, self.kind).1) by {
            if tail_units.len() == 0 {
                assert(units =~= cu);
            } else {
                assert(units =~= cu.push(tail_units[0]));
            }
        }
        self.buf.clear();
        if self.group.len() > 0 {
            let mut gv: Vec<u8> = Vec::new();
            std::mem::swap(&mut gv, &mut self.group);
            out.push_back(gv);
        }
        self.group_has_vcl = false;
        self.fed = Ghost(Seq::empty());
        self.base = Ghost(0);
        proof {
            assert(complete_units(Seq::<u8>::empty()) =~= Seq::<Seq<u8>>::empty());
            assert(self.buf@ =~= self.fed@.skip(0));
            assert(self.group@ =~= Seq::<u8>::empty());
            assert(out1.take(out0.len() as int) =~= out0);
            assert(out2.take(out1.len() as int) =~= out1) by {
                if tail_units.len() == 0 {
                    assert(out2 =~= out1);
                }
            }
            assert(out@.take(out0.len() as int) =~= out0);
            assert(packet_views(out1.skip(out0.len() as int)) =~= Seq::<Seq<u8>>::empty());
            assert(grouping(units, self.kind).0 == packets(cu, self.kind) + packet_views(
                out2.skip(out1.len() as int),
            )) by {
                if tail_units.len() == 0 {
                    assert(units =~= cu);
                    assert(out2 =~= out1);
                    assert(packet_views(out2.skip(out1.len() as int)) =~= Seq::<Seq<u8>>::empty());
                    assert(packets(cu, self.kind) + Seq::<Seq<u8>>::empty() =~= packets(cu, self.kind));
                } else {
                    assert(units =~= cu.push(tail_units[0]));
                }
            }
            let added = packet_views(out@.skip(out0.len() as int));
            let mid = packet_views(out2.skip(out1.len() as int));
            if g.len() > 0 {
                assert(out@ =~= out2.push(out@.last()));
                assert(added =~= mid.push(g));
                assert(final_packets(t, self.kind) =~= packets(cu, self.kind) + added);
            } else {
                assert(out@ =~= out2);
                assert(added =~= mid);
                assert(final_packets(t, self.kind) =~= packets(cu, self.kind) + added);
            }
            assert((packets(cu, self.kind) + added).skip(packets(cu, self.kind).len() as int) =~= added);
        }
    }

    /// Whether a NAL unit with header byte `h` carries a coded slice.
    fn nal_is_vcl(&self, h: u8) -> (r: bool)
        ensures
            r == is_vcl(self.kind, h),
    {
        if h & 0x80 != 0 {
            assert(h & 0x80 != 0 ==> h >= 128) by (bit_vector);
            return false;
        }
        assert(h & 0x80 == 0 ==> h < 128) by (bit_vector);
        match self.kind {
            CodecKind::H264 => {
                let t = h & 0x1F;
                assert(h & 0x1F == h % 32) by (bit_vector);
                1 <= t && t <= 5
            },
            CodecKind::H265 => {
                let t = (h >> 1) & 0x3F;
                assert((h >> 1) & 0x3F == (h / 2) % 64) by (bit_vector);
                t <= 31
            },
            CodecKind::Other => true,
        }
    }

    /// The first start code `00 00 01` in `buf` at or after `from`: where it
    /// begins and its length, the four-byte form `00 00 00 01` exactly when
    /// a zero byte comes before it.
    fn find_start(buf: &Vec<u8>, from: usize) -> (r: Option<(usize, usize)>)
        ensures
            match next_start(buf@, from as int) {
                None => r is None,
                Some(q) => r matches Some((p, l)) && {
                    &&& p + l == q + 3
                    &&& (l == 4 <==> (q >= 1 && buf@[q - 1] == 0))
                    &&& (l == 3 || l == 4)
                },
            },
    {
        let mut i = from;
        while i < buf.len() && buf.len() - i > 2
            invariant
                from <= i,
                next_start(buf@, from as int) == next_start(buf@, i as int),
                i > from ==> !(buf@[i - 1] == 0 && buf@[i as int] == 0 && i + 1 < buf@.len() && buf@[i
                    + 1] == 1),
            decreases buf.len() - i,
        {
            if buf[i] == 0 && buf[i + 1] == 0 {
                if buf[i + 2] == 1 {
                    if i > 0 && buf[i - 1] == 0 {
                        return Some((i - 1, 4));
                    }
                    return Some((i, 3));
                }
                if buf.len() - i > 3 && buf[i + 2] == 0 && buf[i + 3] == 1 {
                    assert(!is_start_code(buf@, i as int));
                    assert(is_start_code(buf@, i + 1));
                    assert(next_start(buf@, i + 1) == Some(i + 1));
                    return Some((i, 4));
                }
            }
            assert(!is_start_code(buf@, i as int));
            i = i + 1;
        }
        None
    }

    /// Adds one NAL unit to the packet being assembled; a slice closes it.
    fn push_nal(&mut self, nal: &[u8], out: &mut VecDeque<Vec<u8>>, Ghost(done): Ghost<
        Seq<Seq<u8>>,
    >)
        requires
            nal@.len() > 0,
            !old(self).group_has_vcl,
            old(self).group@ == grouping(done, old(self).kind).1,
        ensures
            final(self).buf == old(self).buf,
            final(self).kind == old(self).kind,
            final(self).fed == old(self).fed,
            final(self).base == old(self).base,
            !final(self).group_has_vcl,
            final(self).group@ == grouping(done.push(nal@), old(self).kind).1,
            final(out)@.len() >= old(out)@.len(),
            final(out)@.take(old(out)@.len() as int) == old(out)@,
            grouping(done.push(nal@), old(self).kind).0 == grouping(done, old(self).kind).0
                + packet_views(final(out)@.skip(old(out)@.len() as int)),
    {
        let ghost out0 = out@;
        let vcl = self.nal_is_vcl(nal[0]);
        // Each NAL in an access unit must be separated by a start code.
        self.group.push(0);
        self.group.push(0);
        self.group.push(0);
        self.group.push(1);
        self.group.extend_from_slice(nal);
        assert(done.push(nal@).drop_last() =~= done);
        assert(self.group@ =~= grouping(done, self.kind).1 + framed(nal@));
        if vcl {
            self.group_has_vcl = true;
            self.flush_group(out);
            assert(out@.skip(out0.len() as int) =~= seq![out@.last()]);
            assert(packet_views(out@.skip(out0.len() as int)) =~= seq![out@.last()@]);
        } else {
            if self.group_has_vcl && self.group.len() > 0 {
                self.flush_group(out);
            }
            assert(out@.skip(out0.len() as int) =~= Seq::<Vec<u8>>::empty());
            assert(packet_views(out@.skip(out0.len() as int)) =~= Seq::<Seq<u8>>::empty());
        }
        assert(out@.take(out0.len() as int) =~= out0);
    }

    /// Moves the packet being assembled to `out`.
    fn flush_group(&mut self, out: &mut VecDeque<Vec<u8>>)
        ensures
            final(self).buf == old(self).buf,
            final(self).kind == old(self).kind,
            final(self).fed == old(self).fed,
            final(self).base == old(self).base,
            old(self).group@.len() > 0 ==> {
                &&& final(out)@ == old(out)@.push(old(self).group)
                &&& final(self).group@ == Seq::<u8>::empty()
                &&& !final(self).group_has_vcl
            },
            old(self).group@.len() == 0 ==> {
                &&& final(out)@ == old(out)@
                &&& final(self).group == old(self).group
                &&& final(self).group_has_vcl == old(self).group_has_vcl
            },
    {
        if self.group.len() > 0 {
            let mut g: Vec<u8> = Vec::new();
            std::mem::swap(&mut g, &mut self.group);
            out.push_back(g);
            self.group_has_vcl = false;
        }
    }

    /// Cuts every unit completed by the fed bytes, keeping the bytes from the
    /// last start code on for the next piece.
    #[verifier::rlimit(60)]
    #[verifier::spinoff_prover]
    fn parse(&mut self, out: &mut VecDeque<Vec<u8>>, Ghost(t0): Ghost<Seq<u8>>)
        requires
            old(self).fed@.len() >= t0.len(),
            old(self).fed@.take(t0.len() as int) == t0,
            0 <= old(self).base@ <= t0.len(),
            !old(self).group_has_vcl,
            old(self).group@ == grouping(complete_units(t0), old(self).kind).1,
            match next_start(t0, 0) {
                None => old(self).base@ == 0,
                Some(q) => old(self).base@ == chain_end(t0, q) || old(self).base@ == chain_end(t0, q)
                    - 1,
            },
            old(self).buf@ == old(self).fed@.skip(old(self).base@),
        ensures
            final(self).wf(),
            final(self).kind == old(self).kind,
            final(self).fed == old(self).fed,
            final(out)@.len() >= old(out)@.len(),
            final(out)@.take(old(out)@.len() as int) == old(out)@,
            packets(complete_units(final(self).fed@), final(self).kind) == packets(
                complete_units(t0),
                old(self).kind,
            ) + packet_views(final(out)@.skip(old(out)@.len() as int)),
    {
        let ghost t = self.fed@;
        let ghost b = self.base@;
        let ghost out0 = out@;
        let ghost bv = self.buf@;
        proof {
            assert(t =~= t0 + t.skip(t0.len() as int));
            assert(out0.take(out0.len() as int) =~= out0);
            assert(packet_views(out0.skip(out0.len() as int)) =~= Seq::<Seq<u8>>::empty());
            assert(packets(complete_units(t0), self.kind) + Seq::<Seq<u8>>::empty() =~= packets(
                complete_units(t0),
                self.kind,
            ));
            lemma_next_start_shift(t, b, 0);
        }
        let first_found = Self::find_start(&self.buf, 0);
        if first_found.is_none() {
            proof {
                match next_start(t0, 0) {
                    Some(q) => {
                        lemma_next_start_found(t0, 0);
                        lemma_units_after_extend(t0, t.skip(t0.len() as int), q);
                        lemma_start_code_extend(t0, t.skip(t0.len() as int), chain_end(t0, q));
                        lemma_base_start(t, b, chain_end(t0, q));
                        assert(false);
                    },
                    None => {
                        assert(t.skip(0) =~= t);
                        assert(complete_units(t0) =~= Seq::<Seq<u8>>::empty());
                        assert(complete_units(t) =~= Seq::<Seq<u8>>::empty());
                    },
                }
            }
            return;
        }
        let (first, first_len) = first_found.unwrap();
        // q0: the first start code of the whole stream; the units before the
        // buffer's first start code are those of `t0`.
        let ghost q0: int;
        let ghost r0: int = next_start(bv, 0)->0;
        proof {
            lemma_next_start_found(bv, 0);
            match next_start(t0, 0) {
                Some(q) => {
                    lemma_next_start_found(t0, 0);
                    lemma_next_start_extend(t0, t.skip(t0.len() as int), 0);
                    lemma_units_after_extend(t0, t.skip(t0.len() as int), q);
                    let l = chain_end(t0, q);
                    lemma_start_code_extend(t0, t.skip(t0.len() as int), l);
                    lemma_base_start(t, b, l);
                    assert(r0 == l - b);
                    lemma_units_after_shift(t, b, l);
                    q0 = q;
                },
                None => {
                    assert(t.skip(0) =~= t);
                    q0 = r0;
                    lemma_units_after_shift(t, 0, r0);
                    assert(complete_units(t0) =~= Seq::<Seq<u8>>::empty());
                    assert(complete_units(t) =~= Seq::<Seq<u8>>::empty() + units_after(bv, r0));
                },
            }
        }
        assert(first + first_len == r0 + 3);
        assert(r0 + 3 <= self.buf.len());
        let mut nal_start = first + first_len;
        let mut keep_from = first;
        let ghost mut cur: int = r0;
        let ghost mut done: Seq<Seq<u8>> = complete_units(t0);
        let mut found = Self::find_start(&self.buf, nal_start);
        while found.is_some()
            invariant
                self.buf@ == bv,
                bv == t.skip(b),
                0 <= b <= t.len(),
                self.fed@ == t,
                self.base@ == b,
                self.kind == old(self).kind,
                next_start(t, 0) == Some(q0),
                is_start_code(bv, cur),
                nal_start == cur + 3,
                keep_from == cur || keep_from + 1 == cur,
                complete_units(t) == done + units_after(bv, cur),
                chain_end(t, q0) == chain_end(bv, cur) + b,
                match next_start(bv, nal_start as int) {
                    None => found is None,
                    Some(q) => found matches Some((p, l)) && {
                        &&& p + l == q + 3
                        &&& (p == q || (p + 1 == q && bv[p as int] == 0))
                        &&& (l == 3 || l == 4)
                    },
                },
                !self.group_has_vcl,
                self.group@ == grouping(done, self.kind).1,
                out@.len() >= out0.len(),
                out@.take(out0.len() as int) == out0,
                grouping(done, self.kind).0 == packets(complete_units(t0), self.kind) + packet_views(
                    out@.skip(out0.len() as int),
                ),
            decreases bv.len() - cur,
        {
            let (next, code_len) = found.unwrap();
            let ghost r = next_start(bv, nal_start as int)->0;
            let ghost seg = bv.subrange(nal_start as int, r);
            let ghost out_before = out@;
            let ghost done_before = done;
            proof {
                lemma_next_start_found(bv, nal_start as int);
                assert(units_after(bv, cur) == unit_between(bv, cur + 3, r) + units_after(bv, r));
                assert(chain_end(bv, cur) == chain_end(bv, r));
            }
            if next > nal_start {
                let mut nal_end = next;
                let ghost mut e: int = (next - nal_start) as int;
                proof {
                    if next + 1 == r {
                        lemma_strip_last_zero(seg, seg.len() as int);
                    }
                    assert(seg.take(seg.len() as int) =~= seg);
                }
                while nal_end > nal_start && self.buf[nal_end - 1] == 0
                    invariant
                        self.buf@ == bv,
                        r <= bv.len(),
                        nal_start <= nal_end <= r,
                        nal_end <= bv.len(),
                        e == nal_end - nal_start,
                        seg == bv.subrange(nal_start as int, r),
                        strip_zeros(seg) == strip_zeros(seg.take(e)),
                    decreases nal_end,
                {
                    proof {
                        lemma_strip_last_zero(seg, e);
                    }
                    nal_end = nal_end - 1;
                    proof {
                        e = e - 1;
                    }
                }
                assert(strip_zeros(seg.take(e)) == seg.take(e));
                assert(seg.take(e) =~= bv.subrange(nal_start as int, nal_end as int));
                if nal_end > nal_start {
                    let nal = slice_bytes(&self.buf, nal_start, nal_end);
                    self.push_nal(nal.as_slice(), out, Ghost(done));
                    proof {
                        done = done.push(nal@);
                        assert(unit_between(bv, cur + 3, r) == seq![nal@]);
                        assert(done_before + (seq![nal@] + units_after(bv, r)) =~= done
                            + units_after(bv, r));
                        assert(out@.take(out0.len() as int) =~= out0) by {
                            assert(out@.take(out_before.len() as int) == out_before);
                        }
                        assert(packet_views(out@.skip(out0.len() as int)) =~= packet_views(
                            out_before.skip(out0.len() as int),
                        ) + packet_views(out@.skip(out_before.len() as int))) by {
                            assert(out@.take(out_before.len() as int) == out_before);
                        }
                    }
                } else {
                    proof {
                        assert(seg.take(e) =~= Seq::<u8>::empty());
                        assert(unit_between(bv, cur + 3, r) =~= Seq::<Seq<u8>>::empty());
                        assert(done + (Seq::<Seq<u8>>::empty() + units_after(bv, r)) =~= done
                            + units_after(bv, r));
                    }
                }
            } else {
                proof {
                    assert(seg.len() == 0 || (seg.len() == 1 && seg[0] == 0));
                    assert(strip_zeros(Seq::<u8>::empty()) =~= Seq::<u8>::empty());
                    if seg.len() == 1 {
                        assert(seg.drop_last() =~= Seq::<u8>::empty());
                        assert(strip_zeros(seg) == strip_zeros(seg.drop_last()));
                    } else {
                        assert(seg =~= Seq::<u8>::empty());
                    }
                    assert(strip_zeros(seg) =~= Seq::<u8>::empty());
                    assert(unit_between(bv, cur + 3, r) =~= Seq::<Seq<u8>>::empty());
                    assert(done + (Seq::<Seq<u8>>::empty() + units_after(bv, r)) =~= done
                        + units_after(bv, r));
                }
            }
            assert(next + code_len == r + 3);
            assert(r + 3 <= self.buf.len());
            nal_start = next + code_len;
            keep_from = next;
            proof {
                cur = r;
            }
            found = Self::find_start(&self.buf, nal_start);
        }
        proof {
            lemma_next_start_found(bv, nal_start as int);
            assert(units_after(bv, cur) =~= Seq::<Seq<u8>>::empty());
            assert(done + Seq::<Seq<u8>>::empty() =~= done);
            assert(chain_end(bv, cur) == cur);
        }
        // Keep everything from the last complete start code onwards, so a
        // partially received NAL or start code is preserved for the next feed.
        let rest = self.buf.split_off(keep_from);
        self.buf = rest;
        self.base = Ghost(b + keep_from);
        proof {
            assert(self.buf@ =~= t.skip(b + keep_from));
        }
    }

}

/// Bytes `from..to` of `v`.
fn slice_bytes(v: &Vec<u8>, from: usize, to: usize) -> (r: Vec<u8>)
    requires
        from <= to <= v.len(),
    ensures
        r@ == v@.subrange(from as int, to as int),
{
    let mut r: Vec<u8> = Vec::new();
    let mut k: usize = from;
    while k < to
        invariant
            from <= k <= to <= v.len(),
            r@ == v@.subrange(from as int, k as int),
        decreases to - k,
    {
        r.push(v[k]);
        k = k + 1;
        assert(r@ =~= v@.subrange(from as int, k as int));
    }
    r
}

} // verus!
