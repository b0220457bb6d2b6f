//! The OpenPort decoder as a stream: how the replies it returns depend on the way the
//! received bytes were cut into transfers.

use crate::openport_codec::{
    decode_next, decode_step, first_pair, is_can_tag, is_text_tag, lemma_again_shrinks,
    lemma_first_pair_bound, line_verdict, packet_verdict, DecodeStep, ResponseView,
    Verdict,
};
use crate::openport_codec::lossy_of;
use crate::text::ws_tokens;
use vstd::prelude::*;

verus! {

/// The reply a complete unit of the stream stands for.
pub open spec fn unit_verdict(w: Seq<u8>) -> Verdict {
    if is_text_tag(w[2]) {
        line_verdict(ws_tokens(lossy_of(w.take(w.len() - 2))))
    } else {
        packet_verdict(w)
    }
}

/// One complete reply as the device sends it: an ASCII line `a r tag ... CR LF` with no
/// other CR LF in it, or a binary packet `a r channel n` followed by `n` payload bytes;
/// and the decoder reads a reply from it.
pub open spec fn is_reply_unit(w: Seq<u8>) -> bool {
    &&& w.len() >= 3
    &&& w[0] == 97u8
    &&& w[1] == 114u8
    &&& if is_text_tag(w[2]) {
        &&& w.len() >= 5
        &&& first_pair(w, 13u8, 10u8, 0) == Some((w.len() - 2) as nat)
    } else {
        &&& is_can_tag(w[2])
        &&& w.len() >= 4
        &&& w.len() == 4 + w[3]
    }
    &&& unit_verdict(w) is Reply
}

/// The reply a unit stands for.
pub open spec fn unit_reply(w: Seq<u8>) -> ResponseView {
    unit_verdict(w)->Reply_0
}

/// The units one after the other.
pub open spec fn concat_units(us: Seq<Seq<u8>>) -> Seq<u8>
    decreases us.len(),
{
    if us.len() == 0 {
        Seq::empty()
    } else {
        us[0] + concat_units(us.drop_first())
    }
}

/// The replies of the units, in order.
pub open spec fn unit_replies(us: Seq<Seq<u8>>) -> Seq<ResponseView> {
    us.map_values(|w: Seq<u8>| unit_reply(w))
}

/// Calls of the decoder until it returns no reply: the replies, and what stays buffered.
pub open spec fn drain(buf: Seq<u8>) -> (Seq<ResponseView>, Seq<u8>)
    decreases buf.len(),
{
    let (r, rest) = decode_next(buf);
    match r {
        None => (Seq::empty(), rest),
        Some(x) => {
            proof {
                lemma_reply_shrinks(buf);
            }
            let (xs, left) = drain(rest);
            (seq![x] + xs, left)
        },
    }
}

/// Feeding the transfers one by one into a decoder that holds `buf`, draining it after
/// each: all replies returned, and what stays buffered at the end.
pub open spec fn feed_transfers(buf: Seq<u8>, transfers: Seq<Seq<u8>>) -> (Seq<ResponseView>, Seq<u8>)
    decreases transfers.len(),
{
    if transfers.len() == 0 {
        (Seq::empty(), buf)
    } else {
        let (xs, left) = drain(buf + transfers[0]);
        let (ys, last) = feed_transfers(left, transfers.drop_first());
        (xs + ys, last)
    }
}

/// A decoding call never grows the buffer, and one that returns a reply shrinks it.
pub proof fn lemma_reply_shrinks(buf: Seq<u8>)
    ensures
        decode_next(buf).1.len() <= buf.len(),
        decode_next(buf).0 is Some ==> decode_next(buf).1.len() < buf.len(),
    decreases buf.len(),
{
    lemma_again_shrinks(buf);
    match decode_step(buf) {
        DecodeStep::Return { reply, rest } => {
            if buf.len() > 0 {
                match first_pair(buf, 97u8, 114u8, 0) {
                    None => {},
                    Some(start) => {
                        lemma_first_pair_bound(buf, 97u8, 114u8, 0);
                        let b = buf.skip(start as int);
                        lemma_first_pair_bound(b, 13u8, 10u8, 0);
                    },
                }
            }
        },
        DecodeStep::Again { rest } => {
            lemma_reply_shrinks(rest);
        },
    }
}

/// A pair found in `s` is found at the same place in any extension of `s`.
proof fn lemma_first_pair_extend(s: Seq<u8>, t: Seq<u8>, x: u8, y: u8, from: nat)
    requires
        first_pair(s, x, y, from) is Some,
    ensures
        first_pair(s + t, x, y, from) == first_pair(s, x, y, from),
    decreases s.len() - from,
{
    lemma_first_pair_bound(s, x, y, from);
    if !(s[from as int] == x && s[from + 1 as int] == y) {
        lemma_first_pair_extend(s, t, x, y, from + 1);
    }
}

/// A pair that `s` holds only at its very end is not found in a shorter prefix.
proof fn lemma_first_pair_prefix(s: Seq<u8>, k: nat, x: u8, y: u8, from: nat)
    requires
        k < s.len(),
        first_pair(s, x, y, from) == Some((s.len() - 2) as nat),
    ensures
        first_pair(s.take(k as int), x, y, from) is None,
    decreases s.len() - from,
{
    if from + 1 < k {
        assert(s.take(k as int)[from as int] == s[from as int]);
        assert(s.take(k as int)[from + 1 as int] == s[from + 1 as int]);
        lemma_first_pair_prefix(s, k, x, y, from + 1);
    }
}

/// A unit followed by anything: the decoder returns the unit's reply and keeps the rest.
pub proof fn lemma_unit_decodes(w: Seq<u8>, tail: Seq<u8>)
    requires
        is_reply_unit(w),
    ensures
        decode_next(w + tail) == (Some(unit_reply(w)), tail),
{
    let b = w + tail;
    assert(first_pair(b, 97u8, 114u8, 0) == Some(0nat));
    assert(b.skip(0) =~= b);
    if is_text_tag(w[2]) {
        lemma_first_pair_extend(w, tail, 13u8, 10u8, 0);
        assert(b.take(w.len() - 2) =~= w.take(w.len() - 2));
        assert(b.skip(w.len() - 2 + 2) =~= tail);
    } else {
        assert(b.take(4 + b[3]) =~= w);
        assert(b.skip(4 + b[3]) =~= tail);
    }
}

/// A proper beginning of a unit: the decoder returns nothing and keeps it.
pub proof fn lemma_partial_unit_waits(w: Seq<u8>, k: nat)
    requires
        is_reply_unit(w),
        k < w.len(),
    ensures
        decode_next(w.take(k as int)) == (None::<ResponseView>, w.take(k as int)),
{
    let p = w.take(k as int);
    if k == 0 {
    } else if k == 1 {
        assert(first_pair(p, 97u8, 114u8, 0) is None);
        assert(seq![97u8] =~= p);
    } else {
        assert(first_pair(p, 97u8, 114u8, 0) == Some(0nat));
        assert(p.skip(0) =~= p);
        if k >= 3 && is_text_tag(w[2]) {
            lemma_first_pair_prefix(w, k, 13u8, 10u8, 0);
        }
    }
}

/// The units before `k`, then a proper beginning `p` of unit `k` (nothing after the last
/// unit): draining gives the replies of the units before `k` and keeps `p`.
proof fn lemma_drain_units(us: Seq<Seq<u8>>, p: Seq<u8>)
    requires
        forall|i: int| 0 <= i < us.len() ==> is_reply_unit(#[trigger] us[i]),
        decode_next(p) == (None::<ResponseView>, p),
    ensures
        drain(concat_units(us) + p) == (unit_replies(us), p),
    decreases us.len(),
{
    if us.len() == 0 {
        assert(concat_units(us) + p =~= p);
        assert(unit_replies(us) =~= Seq::<ResponseView>::empty());
    } else {
        let rest = us.drop_first();
        lemma_drain_units(rest, p);
        assert(concat_units(us) + p =~= us[0] + (concat_units(rest) + p));
        lemma_unit_decodes(us[0], concat_units(rest) + p);
        assert(unit_replies(us) =~= seq![unit_reply(us[0])] + unit_replies(rest));
    }
}

/// Cutting the units' bytes after `q` bytes: some whole units, then a proper beginning of
/// the next unit (nothing, after the last one).
proof fn lemma_cut_units(us: Seq<Seq<u8>>, q: nat) -> (r: (nat, nat))
    requires
        forall|i: int| 0 <= i < us.len() ==> is_reply_unit(#[trigger] us[i]),
        q <= concat_units(us).len(),
    ensures
        r.0 <= us.len(),
        r.0 < us.len() ==> r.1 < us[r.0 as int].len(),
        r.0 == us.len() ==> r.1 == 0,
        concat_units(us).take(q as int) == concat_units(us.take(r.0 as int)) + (if r.0 < us.len() {
            us[r.0 as int].take(r.1 as int)
        } else {
            Seq::empty()
        }),
        concat_units(us).skip(q as int) == (if r.0 < us.len() {
            us[r.0 as int].skip(r.1 as int) + concat_units(us.skip((r.0 + 1) as int))
        } else {
            Seq::empty()
        }),
    decreases us.len(),
{
    if us.len() == 0 {
        assert(concat_units(us.take(0)) =~= Seq::<u8>::empty());
        assert(concat_units(us).take(q as int) =~= Seq::<u8>::empty());
        assert(concat_units(us).skip(q as int) =~= Seq::<u8>::empty());
        (0, 0)
    } else {
        let w = us[0];
        let rest = us.drop_first();
        assert(concat_units(us) == w + concat_units(rest));
        if q < w.len() {
            assert(us.take(0) =~= Seq::<Seq<u8>>::empty());
            assert(concat_units(us).take(q as int) =~= w.take(q as int));
            assert(us.skip(1) =~= rest);
            assert(concat_units(us).skip(q as int) =~= w.skip(q as int) + concat_units(rest));
            (0, q)
        } else {
            let (k, m) = lemma_cut_units(rest, (q - w.len()) as nat);
            assert(us.take(k + 1 as int).drop_first() =~= rest.take(k as int));
            assert(us.take(k + 1 as int)[0] == w);
            assert(concat_units(us.take(k + 1 as int)) == w + concat_units(rest.take(k as int)));
            if k < rest.len() {
                assert(us.skip(k + 2 as int) =~= rest.skip(k + 1 as int));
            }
            assert(concat_units(us).take(q as int) =~= w + concat_units(rest).take(q - w.len()));
            assert(concat_units(us).skip(q as int) =~= concat_units(rest).skip(q - w.len()));
            assert(w + concat_units(rest.take(k as int)) + (if k < rest.len() {
                rest[k as int].take(m as int)
            } else {
                Seq::empty()
            }) =~= w + (concat_units(rest.take(k as int)) + (if k < rest.len() {
                rest[k as int].take(m as int)
            } else {
                Seq::empty()
            })));
            (k + 1, m)
        }
    }
}

/// What follows a cut after `k` whole units and `m` bytes of the next one is the rest of
/// that unit and the units after it.
proof fn lemma_rest_of_cut(us: Seq<Seq<u8>>, k: nat, m: nat, p: Seq<u8>, after: Seq<u8>)
    requires
        k <= us.len(),
        k < us.len() ==> m < us[k as int].len() && p == us[k as int].take(m as int),
        k == us.len() ==> p.len() == 0,
        after == (if k < us.len() {
            us[k as int].skip(m as int) + concat_units(us.skip((k + 1) as int))
        } else {
            Seq::empty()
        }),
    ensures
        p + after == concat_units(us.skip(k as int)),
{
    let back = us.skip(k as int);
    if k < us.len() {
        assert(back[0] == us[k as int]);
        assert(back.drop_first() =~= us.skip(k + 1 as int));
        assert(concat_units(back) == back[0] + concat_units(back.drop_first()));
        assert(us[k as int] =~= us[k as int].take(m as int) + us[k as int].skip(m as int));
        assert(p + after =~= concat_units(back));
    } else {
        assert(back =~= Seq::<Seq<u8>>::empty());
        assert(p + after =~= Seq::<u8>::empty());
    }
}

/// The transfers still to come hold what follows `left` in the units, where `left` is a
/// proper beginning of the first unit: feeding them returns the units' replies and leaves
/// nothing buffered.
proof fn lemma_feed_units(left: Seq<u8>, transfers: Seq<Seq<u8>>, us: Seq<Seq<u8>>)
    requires
        forall|i: int| 0 <= i < us.len() ==> is_reply_unit(#[trigger] us[i]),
        us.len() == 0 ==> left.len() == 0,
        us.len() > 0 ==> left.len() < us[0].len() && left == us[0].take(left.len() as int),
        left + concat_units(transfers) == concat_units(us),
    ensures
        feed_transfers(left, transfers) == (unit_replies(us), Seq::<u8>::empty()),
    decreases transfers.len(),
{
    if transfers.len() == 0 {
        assert(concat_units(transfers) =~= Seq::<u8>::empty());
        if us.len() > 0 {
            assert(concat_units(us) == us[0] + concat_units(us.drop_first()));
            assert(left.len() == concat_units(us).len());
        }
        assert(left =~= Seq::<u8>::empty());
        assert(unit_replies(us) =~= Seq::<ResponseView>::empty());
    } else {
        let c = transfers[0];
        let more = transfers.drop_first();
        let all = concat_units(us);
        assert(concat_units(transfers) == c + concat_units(more));
        let buf = left + c;
        assert(all =~= buf + concat_units(more));
        let q = buf.len();
        let (k, m) = lemma_cut_units(us, q);
        assert(all.take(q as int) =~= buf);
        let p = if k < us.len() { us[k as int].take(m as int) } else { Seq::<u8>::empty() };
        if k < us.len() {
            lemma_partial_unit_waits(us[k as int], m);
        }
        let front = us.take(k as int);
        assert forall|i: int| 0 <= i < front.len() implies is_reply_unit(#[trigger] front[i]) by {
            assert(front[i] == us[i]);
        }
        lemma_drain_units(front, p);
        let back = us.skip(k as int);
        assert forall|i: int| 0 <= i < back.len() implies is_reply_unit(#[trigger] back[i]) by {
            assert(back[i] == us[k + i]);
        }
        assert(all.skip(q as int) =~= concat_units(more));
        lemma_rest_of_cut(us, k, m, p, concat_units(more));
        lemma_feed_units(p, more, back);
        assert(us =~= front + back);
        assert(unit_replies(us) =~= unit_replies(front) + unit_replies(back));
    }
}

/// A stream of complete replies, however it is cut into transfers, gives the same replies
/// in the same order as when it is fed at once, and leaves nothing buffered: the replies
/// of its units.
pub proof fn lemma_transfers_do_not_matter(us: Seq<Seq<u8>>, transfers: Seq<Seq<u8>>)
    requires
        forall|i: int| 0 <= i < us.len() ==> is_reply_unit(#[trigger] us[i]),
        concat_units(transfers) == concat_units(us),
    ensures
        feed_transfers(Seq::empty(), transfers) == (unit_replies(us), Seq::<u8>::empty()),
        drain(concat_units(us)) == (unit_replies(us), Seq::<u8>::empty()),
{
    if us.len() > 0 {
        assert(us[0].take(0) =~= Seq::<u8>::empty());
    }
    assert(Seq::<u8>::empty() + concat_units(transfers) =~= concat_units(transfers));
    lemma_feed_units(Seq::empty(), transfers, us);
    assert(decode_next(Seq::<u8>::empty()) == (None::<ResponseView>, Seq::<u8>::empty()));
    assert(concat_units(us) + Seq::<u8>::empty() =~= concat_units(us));
    lemma_drain_units(us, Seq::empty());
}

} // verus!
