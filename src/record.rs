//! The registered-endpoints record: the endpoint tokens a daemon advertises,
//! joined by commas, as kept on disk and printed for clients.

use vstd::prelude::*;

verus! {

/// The byte `,` that separates endpoint tokens.
pub const SEPARATOR: u8 = 0x2c;

/// The contents of each byte vector.
pub open spec fn views(v: Seq<Vec<u8>>) -> Seq<Seq<u8>> {
    v.map_values(|x: Vec<u8>| x@)
}

/// The tokens joined by the separator.
pub open spec fn joined(ts: Seq<Seq<u8>>) -> Seq<u8>
    decreases ts.len(),
{
    if ts.len() == 0 {
        seq![]
    } else if ts.len() == 1 {
        ts[0]
    } else {
        joined(ts.drop_last()) + seq![SEPARATOR] + ts.last()
    }
}

/// The fields of `s` between separators: always at least one, the empty
/// input having one empty field.
pub open spec fn fields(s: Seq<u8>) -> Seq<Seq<u8>>
    decreases s.len(),
{
    if s.len() == 0 {
        seq![seq![]]
    } else {
        let f = fields(s.drop_last());
        if s.last() == SEPARATOR {
            f.push(seq![])
        } else {
            f.update(f.len() - 1, f.last().push(s.last()))
        }
    }
}

/// The entries of a record: its fields, except that an empty record has none
/// and a separator at the very end opens no further entry.
pub open spec fn record_entries(s: Seq<u8>) -> Seq<Seq<u8>> {
    if s.len() == 0 {
        seq![]
    } else if s.last() == SEPARATOR {
        fields(s).drop_last()
    } else {
        fields(s)
    }
}

/// The line that announces the endpoints to the invoking shell.
pub open spec fn announcement_bytes(ts: Seq<Seq<u8>>) -> Seq<u8> {
    announce_prefix() + joined(ts) + seq![0x0au8]
}

/// `RUST_SOCK=`, the name under which clients look for the endpoints.
pub open spec fn announce_prefix() -> Seq<u8> {
    seq![0x52u8, 0x55, 0x53, 0x54, 0x5f, 0x53, 0x4f, 0x43, 0x4b, 0x3d]
}

pub proof fn lemma_fields_nonempty(s: Seq<u8>)
    ensures
        fields(s).len() >= 1,
    decreases s.len(),
{
    if s.len() > 0 {
        lemma_fields_nonempty(s.drop_last());
    }
}

/// Appends the bytes of `s` to `out`.
pub fn append_bytes(out: &mut Vec<u8>, s: &[u8])
    ensures
        final(out)@ == old(out)@ + s@,
{
    let mut i: usize = 0;
    while i < s.len()
        invariant
            i <= s@.len(),
            out@ == old(out)@ + s@.subrange(0, i as int),
        decreases s@.len() - i,
    {
        out.push(s[i]);
        i = i + 1;
        assert(out@ =~= old(out)@ + s@.subrange(0, i as int));
    }
    assert(s@.subrange(0, i as int) =~= s@);
}

/// The tokens of `list` joined by commas, as the record stores them.
pub fn join_endpoints(list: &Vec<Vec<u8>>) -> (r: Vec<u8>)
    ensures
        r@ == joined(views(list@)),
{
    let mut out: Vec<u8> = Vec::new();
    let mut i: usize = 0;
    while i < list.len()
        invariant
            i <= list@.len(),
            out@ == joined(views(list@).subrange(0, i as int)),
        decreases list@.len() - i,
    {
        let ghost before = views(list@).subrange(0, i as int);
        let ghost after = views(list@).subrange(0, i + 1);
        if i > 0 {
            out.push(SEPARATOR);
        }
        append_bytes(&mut out, list[i].as_slice());
        proof {
            assert(after.drop_last() =~= before);
            if i == 0 {
                assert(out@ =~= after[0]);
            } else {
                assert(out@ =~= joined(before) + seq![SEPARATOR] + after.last());
            }
        }
        i = i + 1;
    }
    assert(views(list@).subrange(0, i as int) =~= views(list@));
    out
}

/// The comma-separated fields of `bytes`.
pub fn split_fields(bytes: &[u8]) -> (r: Vec<Vec<u8>>)
    ensures
        views(r@) == fields(bytes@),
{
    let mut done: Vec<Vec<u8>> = Vec::new();
    let mut cur: Vec<u8> = Vec::new();
    let mut i: usize = 0;
    assert(views(done@).push(cur@) =~= fields(bytes@.subrange(0, 0)));
    while i < bytes.len()
        invariant
            i <= bytes@.len(),
            views(done@).push(cur@) == fields(bytes@.subrange(0, i as int)),
        decreases bytes@.len() - i,
    {
        let ghost pre = bytes@.subrange(0, i as int);
        let ghost next = bytes@.subrange(0, i + 1);
        let ghost old_done = done@;
        let ghost old_cur = cur@;
        assert(next.drop_last() =~= pre);
        let b = bytes[i];
        if b == SEPARATOR {
            done.push(cur);
            cur = Vec::new();
            assert(views(done@) =~= views(old_done).push(old_cur));
            assert(views(done@).push(cur@) =~= fields(next));
        } else {
            cur.push(b);
            assert(views(done@).push(cur@) =~= fields(next));
        }
        i = i + 1;
    }
    assert(bytes@.subrange(0, i as int) =~= bytes@);
    let ghost last_done = done@;
    done.push(cur);
    assert(views(done@) =~= views(last_done).push(cur@));
    done
}

/// The entries of a persisted record.
pub fn parse_record(bytes: &[u8]) -> (r: Vec<Vec<u8>>)
    ensures
        views(r@) == record_entries(bytes@),
{
    if bytes.len() == 0 {
        let r: Vec<Vec<u8>> = Vec::new();
        assert(views(r@) =~= record_entries(bytes@));
        return r;
    }
    let mut f = split_fields(bytes);
    if bytes[bytes.len() - 1] == SEPARATOR {
        proof {
            lemma_fields_nonempty(bytes@);
        }
        let ghost before = f@;
        f.pop();
        assert(views(f@) =~= views(before).drop_last());
    }
    f
}

/// Whether the two byte sequences are equal.
pub fn bytes_equal(a: &[u8], b: &[u8]) -> (r: bool)
    ensures
        r == (a@ == b@),
{
    if a.len() != b.len() {
        return false;
    }
    let mut i: usize = 0;
    while i < a.len()
        invariant
            a@.len() == b@.len(),
            i <= a@.len(),
            a@.subrange(0, i as int) == b@.subrange(0, i as int),
        decreases a@.len() - i,
    {
        if a[i] != b[i] {
            assert(a@[i as int] != b@[i as int]);
            return false;
        }
        i = i + 1;
        assert(a@.subrange(0, i as int) =~= b@.subrange(0, i as int));
    }
    assert(a@ =~= a@.subrange(0, i as int));
    assert(b@ =~= b@.subrange(0, i as int));
    true
}

/// Whether the record found on disk is exactly the one written for `servers`:
/// only then may this process remove it.
pub fn record_matches(on_disk: &[u8], servers: &Vec<Vec<u8>>) -> (r: bool)
    ensures
        r == (on_disk@ == joined(views(servers@))),
{
    let mine = join_endpoints(servers);
    bytes_equal(on_disk, mine.as_slice())
}

/// The line `RUST_SOCK=<endpoints>` and a newline.
pub fn announcement(servers: &Vec<Vec<u8>>) -> (r: Vec<u8>)
    ensures
        r@ == announcement_bytes(views(servers@)),
{
    let mut out: Vec<u8> = vec![0x52u8, 0x55, 0x53, 0x54, 0x5f, 0x53, 0x4f, 0x43, 0x4b, 0x3d];
    assert(out@ =~= announce_prefix());
    let list = join_endpoints(servers);
    append_bytes(&mut out, list.as_slice());
    out.push(0x0a);
    out
}

/// Fields of `x + t`, for `t` free of separators: the last field of `x` grows
/// by `t`.
proof fn lemma_fields_append_plain(x: Seq<u8>, t: Seq<u8>)
    requires
        !t.contains(SEPARATOR),
    ensures
        fields(x + t) == fields(x).update(fields(x).len() - 1, fields(x).last() + t),
    decreases t.len(),
{
    lemma_fields_nonempty(x);
    if t.len() == 0 {
        assert(x + t =~= x);
        assert(fields(x).last() + t =~= fields(x).last());
        assert(fields(x).update(fields(x).len() - 1, fields(x).last()) =~= fields(x));
    } else {
        let t1 = t.drop_last();
        assert(!t1.contains(SEPARATOR)) by {
            if t1.contains(SEPARATOR) {
                let j = choose|j: int| 0 <= j < t1.len() && t1[j] == SEPARATOR;
                assert(t[j] == SEPARATOR);
            }
        }
        assert(t.last() != SEPARATOR) by {
            assert(t[t.len() - 1] == t.last());
        }
        lemma_fields_append_plain(x, t1);
        assert((x + t).drop_last() =~= x + t1);
        assert((x + t).last() == t.last());
        let f = fields(x);
        assert((f.last() + t1).push(t.last()) =~= f.last() + t);
        assert(f.update(f.len() - 1, f.last() + t1).update(f.len() - 1, (f.last() + t1).push(t.last()))
            =~= f.update(f.len() - 1, f.last() + t));
    }
}

proof fn lemma_fields_joined(ts: Seq<Seq<u8>>)
    requires
        ts.len() >= 1,
        forall|i: int| 0 <= i < ts.len() ==> !(#[trigger] ts[i]).contains(SEPARATOR),
    ensures
        fields(joined(ts)) == ts,
    decreases ts.len(),
{
    let t = ts.last();
    assert(!t.contains(SEPARATOR)) by {
        assert(ts[ts.len() - 1] == t);
    }
    if ts.len() == 1 {
        lemma_fields_append_plain(seq![], t);
        assert(Seq::<u8>::empty() + t =~= t);
        assert(fields(Seq::<u8>::empty()).update(0, Seq::<u8>::empty() + t) =~= ts);
    } else {
        let init = ts.drop_last();
        assert forall|i: int| 0 <= i < init.len() implies !(#[trigger] init[i]).contains(
            SEPARATOR,
        ) by {
            assert(init[i] == ts[i]);
        }
        lemma_fields_joined(init);
        let j = joined(init) + seq![SEPARATOR];
        assert(j.drop_last() =~= joined(init));
        assert(fields(j) == init.push(seq![]));
        lemma_fields_append_plain(j, t);
        assert(joined(ts) == j + t);
        assert(init.push(seq![]).update(init.len() as int, Seq::<u8>::empty() + t) =~= ts);
    }
}

/// Reading back a record yields the tokens it was written from, when each
/// token is non-empty and holds no comma.
pub proof fn lemma_record_round_trip(ts: Seq<Seq<u8>>)
    requires
        forall|i: int|
            0 <= i < ts.len() ==> (#[trigger] ts[i]).len() > 0 && !ts[i].contains(SEPARATOR),
    ensures
        record_entries(joined(ts)) == ts,
{
    if ts.len() > 0 {
        lemma_fields_joined(ts);
        lemma_joined_ends_with_last(ts);
        assert(ts[ts.len() - 1] == ts.last());
        let l = ts.last();
        assert(l[l.len() - 1] != SEPARATOR);
    }
}

proof fn lemma_joined_ends_with_last(ts: Seq<Seq<u8>>)
    requires
        ts.len() >= 1,
        ts.last().len() > 0,
    ensures
        joined(ts).len() > 0,
        joined(ts).last() == ts.last().last(),
{
    if ts.len() > 1 {
        let j = joined(ts.drop_last()) + seq![SEPARATOR] + ts.last();
        assert(j[j.len() - 1] == ts.last()[ts.last().len() - 1]);
    }
}

} // verus!
