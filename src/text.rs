use vstd::prelude::*;

verus! {

/// `t` occurs in `s` as a contiguous run of characters.
pub open spec fn is_infix(t: Seq<char>, s: Seq<char>) -> bool {
    exists|a: int| 0 <= a && a + t.len() <= s.len() && #[trigger] s.subrange(a, a + t.len()) == t
}

/// `s` holds no line break.
pub open spec fn is_single_line(s: Seq<char>) -> bool {
    forall|i: int| 0 <= i < s.len() ==> s[i] != '\n'
}

/// The pieces joined in order, with one line break between neighbours.
pub open spec fn join_lines(parts: Seq<Seq<char>>) -> Seq<char>
    decreases parts.len(),
{
    if parts.len() == 0 {
        Seq::empty()
    } else if parts.len() == 1 {
        parts[0]
    } else {
        join_lines(parts.drop_last()) + seq!['\n'] + parts.last()
    }
}

/// The pieces of `s` between its line breaks: one more piece than there are
/// breaks, so an empty text is one empty piece and a trailing break leaves an
/// empty last piece.
pub open spec fn split_lines_of(s: Seq<char>) -> Seq<Seq<char>>
    decreases s.len(),
{
    if s.len() == 0 {
        seq![Seq::empty()]
    } else {
        let parts = split_lines_of(s.drop_last());
        if s.last() == '\n' {
            parts.push(Seq::empty())
        } else {
            parts.update(parts.len() - 1, parts.last().push(s.last()))
        }
    }
}

/// The views of a list of strings.
pub open spec fn views_of(v: Seq<String>) -> Seq<Seq<char>> {
    v.map_values(|s: String| s@)
}

/// Relies on `str::chars`: it yields the characters of the string in order.
#[verifier::external_body]
fn chars_of(s: &str) -> (r: Vec<char>)
    ensures
        r@ == s@,
{
    s.chars().collect()
}

/// Relies on `String::push`: it appends one character.
#[verifier::external_body]
fn push_char(s: &mut String, c: char)
    ensures
        final(s)@ == old(s)@.push(c),
{
    s.push(c)
}

proof fn lemma_split_lines_nonempty(s: Seq<char>)
    ensures
        split_lines_of(s).len() >= 1,
    decreases s.len(),
{
    if s.len() > 0 {
        lemma_split_lines_nonempty(s.drop_last());
    }
}

/// Cuts a text at each line break, as `split_lines_of` describes.
pub fn split_lines(text: &str) -> (r: Vec<String>)
    ensures
        views_of(r@) == split_lines_of(text@),
{
    let chars = chars_of(text);
    let mut parts: Vec<String> = Vec::new();
    let mut cur = String::new();
    let mut i: usize = 0;
    while i < chars.len()
        invariant
            chars@ == text@,
            i <= chars.len(),
            views_of(parts@).push(cur@) == split_lines_of(text@.subrange(0, i as int)),
        decreases chars.len() - i,
    {
        let c = chars[i];
        let ghost before = views_of(parts@).push(cur@);
        proof {
            let prefix = text@.subrange(0, i as int + 1);
            assert(prefix.drop_last() =~= text@.subrange(0, i as int));
            assert(prefix.last() == c);
        }
        if c == '\n' {
            let mut done = String::new();
            std::mem::swap(&mut cur, &mut done);
            parts.push(done);
            assert(views_of(parts@).push(cur@) =~= before.push(Seq::empty()));
        } else {
            push_char(&mut cur, c);
            assert(views_of(parts@).push(cur@) =~= before.update(
                before.len() - 1,
                before.last().push(c),
            ));
        }
        i = i + 1;
    }
    assert(text@.subrange(0, i as int) =~= text@);
    parts.push(cur);
    assert(views_of(parts@) =~= split_lines_of(text@));
    parts
}

/// Joins the pieces in order with one line break between neighbours; `None`
/// when there is nothing to join.
pub fn join_matches(parts: &Vec<String>) -> (r: Option<String>)
    ensures
        r is None <==> parts@.len() == 0,
        r matches Some(s) ==> s@ == join_lines(views_of(parts@)),
{
    if parts.len() == 0 {
        return None;
    }
    let mut out = parts[0].clone();
    let mut i: usize = 1;
    while i < parts.len()
        invariant
            1 <= i <= parts.len(),
            out@ == join_lines(views_of(parts@.subrange(0, i as int))),
        decreases parts.len() - i,
    {
        proof {
            let next = parts@.subrange(0, i as int + 1);
            assert(views_of(next).drop_last() =~= views_of(parts@.subrange(0, i as int)));
        }
        out.append("\n");
        out.append(parts[i].as_str());
        proof {
            reveal_strlit("\n");
        }
        i = i + 1;
    }
    assert(parts@.subrange(0, i as int) =~= parts@);
    Some(out)
}

proof fn lemma_split_append_single_line(s: Seq<char>, b: Seq<char>)
    requires
        is_single_line(b),
    ensures
        split_lines_of(s + b) == split_lines_of(s).update(
            split_lines_of(s).len() - 1,
            split_lines_of(s).last() + b,
        ),
    decreases b.len(),
{
    lemma_split_lines_nonempty(s);
    if b.len() == 0 {
        assert(s + b =~= s);
        assert(split_lines_of(s).last() + b =~= split_lines_of(s).last());
        assert(split_lines_of(s).update(split_lines_of(s).len() - 1, split_lines_of(s).last())
            =~= split_lines_of(s));
    } else {
        let c = b.last();
        let b0 = b.drop_last();
        assert(is_single_line(b0));
        lemma_split_append_single_line(s, b0);
        assert((s + b).drop_last() =~= s + b0);
        assert((s + b).last() == c);
        assert(b[b.len() - 1] != '\n');
        assert(split_lines_of(s).last() + b =~= (split_lines_of(s).last() + b0).push(c));
        assert(split_lines_of(s + b) =~= split_lines_of(s).update(
            split_lines_of(s).len() - 1,
            split_lines_of(s).last() + b,
        ));
    }
}

/// Joining single-line pieces and cutting the result at its line breaks gives
/// the pieces back, in order.
pub proof fn lemma_split_join(parts: Seq<Seq<char>>)
    requires
        parts.len() >= 1,
        forall|i: int| 0 <= i < parts.len() ==> is_single_line(#[trigger] parts[i]),
    ensures
        split_lines_of(join_lines(parts)) == parts,
    decreases parts.len(),
{
    let empty = Seq::<char>::empty();
    if parts.len() == 1 {
        lemma_split_append_single_line(empty, parts[0]);
        assert(empty + parts[0] =~= parts[0]);
        assert(split_lines_of(empty) == seq![empty]);
        assert(split_lines_of(parts[0]) =~= parts);
    } else {
        let init = parts.drop_last();
        let b = parts.last();
        assert(is_single_line(parts[parts.len() - 1]));
        lemma_split_join(init);
        let a = join_lines(init);
        let nl = a + seq!['\n'];
        assert(nl.drop_last() =~= a);
        assert(split_lines_of(nl) == split_lines_of(a).push(empty));
        lemma_split_append_single_line(nl, b);
        assert(empty + b =~= b);
        assert(split_lines_of(join_lines(parts)) =~= parts);
    }
}

} // verus!
