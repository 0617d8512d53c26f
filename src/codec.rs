//! The textual encoding of cache entries.
//!
//! A record is written as a fixed header of 80 lowercase hex digits (the
//! identifier in 32, the creation time shifted by 2^63 in 16, the character
//! counts of title and content in 16 each) followed by the title and the
//! content. A collection is its count in 16 hex digits followed by its
//! records. Any text that does not parse is treated as a cache miss.

use vstd::prelude::*;
use vstd::string::*;
use crate::hex::{all_hex, hex_digits, hex_value, is_hex_char, lemma_hex_digits, lemma_pow16_32, push_hex, read_hex};
use crate::post::{posts_view, Post, PostView};

verus! {

pub const HEADER_LEN: usize = 80;

pub const TIME_SHIFT: i128 = 0x8000_0000_0000_0000;

/// A record whose title and content lengths fit in a machine word.
pub open spec fn fits(p: PostView) -> bool {
    p.title.len() <= usize::MAX && p.content.len() <= usize::MAX
}

pub open spec fn post_text(p: PostView) -> Seq<char> {
    hex_digits(p.id as nat, 32) + hex_digits((p.created_at + TIME_SHIFT) as nat, 16)
        + hex_digits(p.title.len(), 16) + hex_digits(p.content.len(), 16) + p.title + p.content
}

/// Parses one record at the front of `s`; also gives how many characters it took.
pub open spec fn parse_post(s: Seq<char>) -> Option<(PostView, nat)> {
    if s.len() < 80 || !all_hex(s.subrange(0, 80)) {
        None
    } else {
        let tl = hex_value(s.subrange(48, 64));
        let cl = hex_value(s.subrange(64, 80));
        if 80 + tl + cl > s.len() {
            None
        } else {
            Some(
                (
                    PostView {
                        id: hex_value(s.subrange(0, 32)) as u128,
                        created_at: (hex_value(s.subrange(32, 48)) - TIME_SHIFT) as i64,
                        title: s.subrange(80, 80 + tl as int),
                        content: s.subrange(80 + tl as int, 80 + tl + cl as int),
                    },
                    (80 + tl + cl) as nat,
                ),
            )
        }
    }
}

/// The record that an entry holds, if the whole text is one record.
pub open spec fn decode_post(s: Seq<char>) -> Option<PostView> {
    match parse_post(s) {
        Some((p, n)) => if n == s.len() {
            Some(p)
        } else {
            None
        },
        None => None,
    }
}

pub open spec fn items_text(ps: Seq<PostView>) -> Seq<char>
    decreases ps.len(),
{
    if ps.len() == 0 {
        Seq::empty()
    } else {
        items_text(ps.drop_last()) + post_text(ps.last())
    }
}

pub open spec fn posts_text(ps: Seq<PostView>) -> Seq<char> {
    hex_digits(ps.len(), 16) + items_text(ps)
}

/// Parses exactly `k` records that make up the whole of `s`.
pub open spec fn parse_items(s: Seq<char>, k: nat) -> Option<Seq<PostView>>
    decreases k,
{
    if k == 0 {
        if s.len() == 0 {
            Some(Seq::empty())
        } else {
            None
        }
    } else {
        match parse_post(s) {
            None => None,
            Some((p, n)) => match parse_items(s.subrange(n as int, s.len() as int), (k - 1) as nat) {
                None => None,
                Some(rest) => Some(seq![p] + rest),
            },
        }
    }
}

/// The collection that an entry holds, if the text is a well-formed collection.
pub open spec fn decode_posts(s: Seq<char>) -> Option<Seq<PostView>> {
    if s.len() < 16 || !all_hex(s.subrange(0, 16)) {
        None
    } else {
        parse_items(s.subrange(16, s.len() as int), hex_value(s.subrange(0, 16)))
    }
}

pub open spec fn prepend(acc: Seq<PostView>, r: Option<Seq<PostView>>) -> Option<Seq<PostView>> {
    match r {
        Some(rest) => Some(acc + rest),
        None => None,
    }
}

proof fn lemma_all_hex_concat(a: Seq<char>, b: Seq<char>)
    requires
        all_hex(a),
        all_hex(b),
    ensures
        all_hex(a + b),
{
    assert forall|i: int| 0 <= i < (a + b).len() implies is_hex_char(#[trigger] (a + b)[i]) by {
        if i >= a.len() {
            assert((a + b)[i] == b[i - a.len()]);
        }
    }
}

proof fn lemma_all_hex_sub(s: Seq<char>, lo: int, hi: int)
    requires
        all_hex(s),
        0 <= lo <= hi <= s.len(),
    ensures
        all_hex(s.subrange(lo, hi)),
{
    assert forall|i: int| 0 <= i < hi - lo implies is_hex_char(#[trigger] s.subrange(lo, hi)[i]) by {
        assert(s.subrange(lo, hi)[i] == s[lo + i]);
    }
}

/// A record followed by anything parses back to itself.
pub proof fn lemma_parse_post_text(p: PostView, rest: Seq<char>)
    requires
        fits(p),
    ensures
        parse_post(post_text(p) + rest) == Some((p, post_text(p).len())),
{
    lemma_pow16_32();
    let t = (p.created_at + TIME_SHIFT) as nat;
    lemma_hex_digits(p.id as nat, 32);
    lemma_hex_digits(t, 16);
    lemma_hex_digits(p.title.len(), 16);
    lemma_hex_digits(p.content.len(), 16);
    let a = hex_digits(p.id as nat, 32);
    let b = hex_digits(t, 16);
    let c = hex_digits(p.title.len(), 16);
    let d = hex_digits(p.content.len(), 16);
    let s = post_text(p) + rest;
    assert(s.subrange(0, 32) =~= a);
    assert(s.subrange(32, 48) =~= b);
    assert(s.subrange(48, 64) =~= c);
    assert(s.subrange(64, 80) =~= d);
    lemma_all_hex_concat(a, b);
    lemma_all_hex_concat(a + b, c);
    lemma_all_hex_concat(a + b + c, d);
    assert(s.subrange(0, 80) =~= a + b + c + d);
    let tl = p.title.len() as int;
    let cl = p.content.len() as int;
    assert(s.subrange(80, 80 + tl) =~= p.title);
    assert(s.subrange(80 + tl, 80 + tl + cl) =~= p.content);
}

pub proof fn lemma_items_text_front(p: PostView, ps: Seq<PostView>)
    ensures
        items_text(seq![p] + ps) == post_text(p) + items_text(ps),
    decreases ps.len(),
{
    if ps.len() == 0 {
        assert((seq![p] + ps).drop_last() =~= Seq::<PostView>::empty());
        assert((seq![p] + ps).last() == p);
        assert(items_text(Seq::<PostView>::empty()) == Seq::<char>::empty());
        assert(items_text(seq![p] + ps) =~= post_text(p) + items_text(ps));
    } else {
        let q = seq![p] + ps;
        assert(q.drop_last() =~= seq![p] + ps.drop_last());
        assert(q.last() == ps.last());
        lemma_items_text_front(p, ps.drop_last());
        assert(items_text(q) =~= post_text(p) + items_text(ps));
    }
}

/// Records written one after the other parse back to the same records.
pub proof fn lemma_parse_items_text(ps: Seq<PostView>)
    requires
        forall|i: int| 0 <= i < ps.len() ==> fits(#[trigger] ps[i]),
    ensures
        parse_items(items_text(ps), ps.len()) == Some(ps),
    decreases ps.len(),
{
    if ps.len() == 0 {
    } else {
        let p = ps[0];
        let tail = ps.drop_first();
        assert(ps =~= seq![p] + tail);
        lemma_items_text_front(p, tail);
        assert forall|i: int| 0 <= i < tail.len() implies fits(#[trigger] tail[i]) by {
            assert(tail[i] == ps[i + 1]);
        }
        lemma_parse_items_text(tail);
        let s = post_text(p) + items_text(tail);
        lemma_parse_post_text(p, items_text(tail));
        assert(s.subrange(post_text(p).len() as int, s.len() as int) =~= items_text(tail));
    }
}

/// Fidelity of the collection encoding.
pub proof fn lemma_posts_round_trip(ps: Seq<PostView>)
    requires
        ps.len() <= usize::MAX,
        forall|i: int| 0 <= i < ps.len() ==> fits(#[trigger] ps[i]),
    ensures
        decode_posts(posts_text(ps)) == Some(ps),
{
    lemma_pow16_32();
    lemma_hex_digits(ps.len(), 16);
    lemma_parse_items_text(ps);
    let s = posts_text(ps);
    assert(s.subrange(0, 16) =~= hex_digits(ps.len(), 16));
    assert(s.subrange(16, s.len() as int) =~= items_text(ps));
}

/// Fidelity of the record encoding.
pub proof fn lemma_post_round_trip(p: PostView)
    requires
        fits(p),
    ensures
        decode_post(post_text(p)) == Some(p),
{
    lemma_parse_post_text(p, Seq::empty());
    assert(post_text(p) + Seq::<char>::empty() =~= post_text(p));
}

/// Appends the encoding of `p` to `out`.
pub fn push_post(out: &mut String, p: &Post)
    ensures
        final(out)@ == old(out)@ + post_text(p@),
        fits(p@),
{
    let tl = p.title.as_str().unicode_len();
    let cl = p.content.as_str().unicode_len();
    push_hex(out, p.id, 32);
    push_hex(out, (p.created_at as i128 + TIME_SHIFT) as u128, 16);
    push_hex(out, tl as u128, 16);
    push_hex(out, cl as u128, 16);
    out.append(p.title.as_str());
    out.append(p.content.as_str());
    assert(final(out)@ =~= old(out)@ + post_text(p@));
}

/// The cache entry text of one record.
pub fn encode_post(p: &Post) -> (r: String)
    ensures
        r@ == post_text(p@),
        fits(p@),
{
    let mut out = String::new();
    push_post(&mut out, p);
    assert(out@ =~= post_text(p@));
    out
}

/// The cache entry text of a collection of records.
pub fn encode_posts(ps: &Vec<Post>) -> (r: String)
    ensures
        r@ == posts_text(posts_view(ps@)),
        forall|i: int| 0 <= i < ps@.len() ==> fits(#[trigger] posts_view(ps@)[i]),
{
    let mut out = String::new();
    push_hex(&mut out, ps.len() as u128, 16);
    let ghost head = out@;
    let mut i: usize = 0;
    while i < ps.len()
        invariant
            i <= ps@.len(),
            head == hex_digits(ps@.len(), 16),
            out@ == head + items_text(posts_view(ps@).take(i as int)),
            forall|j: int| 0 <= j < i ==> fits(#[trigger] posts_view(ps@)[j]),
        decreases ps@.len() - i,
    {
        push_post(&mut out, &ps[i]);
        proof {
            let v = posts_view(ps@);
            assert(v.take(i + 1).drop_last() =~= v.take(i as int));
            assert(v.take(i + 1).last() == ps@[i as int]@);
        }
        i = i + 1;
    }
    proof {
        assert(posts_view(ps@).take(ps@.len() as int) =~= posts_view(ps@));
    }
    out
}

/// Parses one record of `s` that starts at character `from`, where `n` is the
/// length of `s`.
fn parse_post_at(s: &str, n: usize, from: usize) -> (r: Option<(Post, usize)>)
    requires
        n == s@.len(),
        from <= n,
    ensures
        match parse_post(s@.subrange(from as int, n as int)) {
            None => r is None,
            Some((p, k)) => match r {
                Some((q, m)) => q@ == p && m == from + k,
                None => false,
            },
        },
{
    let ghost t = s@.subrange(from as int, n as int);
    if n - from < HEADER_LEN {
        return None;
    }
    proof {
        assert(t.subrange(0, 32) =~= s@.subrange(from as int, from + 32));
        assert(t.subrange(32, 48) =~= s@.subrange(from + 32, from + 48));
        assert(t.subrange(48, 64) =~= s@.subrange(from + 48, from + 64));
        assert(t.subrange(64, 80) =~= s@.subrange(from + 64, from + 80));
        assert(t.subrange(0, 80) =~= t.subrange(0, 32) + t.subrange(32, 48) + t.subrange(48, 64)
            + t.subrange(64, 80));
        if all_hex(t.subrange(0, 80)) {
            lemma_all_hex_sub(t.subrange(0, 80), 0, 32);
            lemma_all_hex_sub(t.subrange(0, 80), 32, 48);
            lemma_all_hex_sub(t.subrange(0, 80), 48, 64);
            lemma_all_hex_sub(t.subrange(0, 80), 64, 80);
            assert(t.subrange(0, 80).subrange(0, 32) =~= t.subrange(0, 32));
            assert(t.subrange(0, 80).subrange(32, 48) =~= t.subrange(32, 48));
            assert(t.subrange(0, 80).subrange(48, 64) =~= t.subrange(48, 64));
            assert(t.subrange(0, 80).subrange(64, 80) =~= t.subrange(64, 80));
        }
    }
    let id = match read_hex(s, from, 32) {
        Some(v) => v,
        None => { return None; },
    };
    let shifted = match read_hex(s, from + 32, 16) {
        Some(v) => v,
        None => { return None; },
    };
    let tl = match read_hex(s, from + 48, 16) {
        Some(v) => v,
        None => { return None; },
    };
    let cl = match read_hex(s, from + 64, 16) {
        Some(v) => v,
        None => { return None; },
    };
    proof {
        lemma_pow16_32();
        lemma_all_hex_concat(t.subrange(0, 32), t.subrange(32, 48));
        lemma_all_hex_concat(t.subrange(0, 32) + t.subrange(32, 48), t.subrange(48, 64));
        lemma_all_hex_concat(
            t.subrange(0, 32) + t.subrange(32, 48) + t.subrange(48, 64),
            t.subrange(64, 80),
        );
    }
    if 80 + tl + cl > (n - from) as u128 {
        return None;
    }
    let a = from + 80;
    let b = a + tl as usize;
    let c = b + cl as usize;
    let title = s.substring_char(a, b).to_owned();
    let content = s.substring_char(b, c).to_owned();
    let created_at = (shifted as i128 - TIME_SHIFT) as i64;
    proof {
        assert(title@ =~= t.subrange(80, 80 + tl));
        assert(content@ =~= t.subrange(80 + tl, 80 + tl + cl));
        assert(all_hex(t.subrange(0, 80)));
        assert(id as nat == hex_value(t.subrange(0, 32)));
        assert(shifted as nat == hex_value(t.subrange(32, 48)));
        assert(tl as nat == hex_value(t.subrange(48, 64)));
        assert(cl as nat == hex_value(t.subrange(64, 80)));
    }
    Some((Post { id, title, content, created_at }, c))
}

/// The record held by a cache entry, or `None` when the text is not one record.
pub fn decode_post_entry(s: &str) -> (r: Option<Post>)
    ensures
        match decode_post(s@) {
            None => r is None,
            Some(p) => r is Some && r->0@ == p,
        },
{
    let n = s.unicode_len();
    assert(s@.subrange(0, n as int) =~= s@);
    match parse_post_at(s, n, 0) {
        Some((p, k)) => {
            if k == n {
                Some(p)
            } else {
                None
            }
        },
        None => None,
    }
}

/// The collection held by a cache entry, or `None` when the text is not one.
pub fn decode_posts_entry(s: &str) -> (r: Option<Vec<Post>>)
    ensures
        match decode_posts(s@) {
            None => r is None,
            Some(ps) => r is Some && posts_view(r->0@) == ps,
        },
{
    let n = s.unicode_len();
    if n < 16 {
        return None;
    }
    let count = match read_hex(s, 0, 16) {
        Some(v) => v,
        None => { return None; },
    };
    let ghost body = s@.subrange(16, n as int);
    let mut out: Vec<Post> = Vec::new();
    let mut pos: usize = 16;
    let mut k: u128 = 0;
    while k < count
        invariant
            n == s@.len(),
            16 <= pos <= n,
            k <= count,
            all_hex(s@.subrange(0, 16)),
            count == hex_value(s@.subrange(0, 16)),
            body == s@.subrange(16, n as int),
            prepend(posts_view(out@), parse_items(s@.subrange(pos as int, n as int), (count - k) as nat))
                == parse_items(body, count as nat),
        decreases count - k,
    {
        let ghost t = s@.subrange(pos as int, n as int);
        match parse_post_at(s, n, pos) {
            Some((p, next)) => {
                proof {
                    let (pv, used) = parse_post(t)->0;
                    assert(t.subrange(used as int, t.len() as int) =~= s@.subrange(next as int, n as int));
                    let r = parse_items(s@.subrange(next as int, n as int), (count - k - 1) as nat);
                    assert(posts_view(out@.push(p)) =~= posts_view(out@).push(p@));
                    if r is Some {
                        assert(posts_view(out@) + (seq![pv] + r->0) =~= posts_view(out@).push(p@) + r->0);
                    }
                }
                out.push(p);
                pos = next;
            },
            None => {
                return None;
            },
        }
        k = k + 1;
    }
    if pos == n {
        proof {
            assert(s@.subrange(pos as int, n as int).len() == 0);
            assert(posts_view(out@) + Seq::<PostView>::empty() =~= posts_view(out@));
        }
        Some(out)
    } else {
        None
    }
}

} // verus!
