use vstd::prelude::*;
use vstd::std_specs::iter::IteratorSpec;

verus! {

/// The buffer text for a list of names: each name followed by a newline.
pub open spec fn render(names: Seq<Seq<char>>) -> Seq<char>
    decreases names.len(),
{
    if names.len() == 0 {
        Seq::empty()
    } else {
        render(names.drop_last()) + names.last() + seq!['\n']
    }
}

/// Position of the first newline in `t`, or `t.len()` when there is none.
pub open spec fn line_end(t: Seq<char>) -> nat
    decreases t.len(),
{
    if t.len() == 0 {
        0
    } else if t[0] == '\n' {
        0
    } else {
        1 + line_end(t.drop_first())
    }
}

/// A line without the carriage return that a CRLF line break leaves behind.
pub open spec fn strip_cr(line: Seq<char>) -> Seq<char> {
    if line.len() > 0 && line.last() == '\r' {
        line.drop_last()
    } else {
        line
    }
}

/// The lines of a buffer text. Each line ends at a newline, which is not part
/// of it, nor is a carriage return just before that newline; the text after
/// the last newline is one more line when it is not empty.
pub open spec fn lines(t: Seq<char>) -> Seq<Seq<char>>
    decreases t.len(),
{
    if t.len() == 0 {
        Seq::empty()
    } else {
        let k = line_end(t);
        if k >= t.len() {
            seq![t]
        } else {
            seq![strip_cr(t.subrange(0, k as int))] + lines(t.subrange((k + 1) as int, t.len() as int))
        }
    }
}

/// The characters of `text`, in order.
fn chars_of(text: &str) -> (r: Vec<char>)
    ensures
        r@ == text@,
{
    broadcast use vstd::string::axiom_spec_iter;

    let mut out: Vec<char> = Vec::new();
    let iter = text.chars();
    assert(iter.remaining() == text@);
    for c in it: iter
        invariant
            it.seq() == text@,
            out@ == it.seq().take(it.index()),
    {
        assert(it.seq().take(it.index() + 1) =~= it.seq().take(it.index()).push(c));
        out.push(c);
    }
    assert(out@ =~= text@);
    out
}

/// `line_end` is the position of the first newline, or the length when the
/// text holds none.
proof fn lemma_line_end(t: Seq<char>)
    ensures
        0 <= line_end(t) <= t.len(),
        forall|j: int| 0 <= j < line_end(t) ==> t[j] != '\n',
        line_end(t) < t.len() ==> t[line_end(t) as int] == '\n',
    decreases t.len(),
{
    if t.len() > 0 && t[0] != '\n' {
        lemma_line_end(t.drop_first());
        assert forall|j: int| 0 <= j < line_end(t) implies t[j] != '\n' by {
            if j > 0 {
                assert(t[j] == t.drop_first()[j - 1]);
            }
        }
    }
}

/// The first newline of a text determines `line_end`.
proof fn lemma_line_end_at(t: Seq<char>, k: int)
    requires
        0 <= k <= t.len(),
        forall|j: int| 0 <= j < k ==> t[j] != '\n',
        k < t.len() ==> t[k] == '\n',
    ensures
        line_end(t) == k,
{
    lemma_line_end(t);
}

/// Splitting into lines distributes over a concatenation whose first part
/// ends with a newline.
proof fn lemma_lines_append(a: Seq<char>, b: Seq<char>)
    requires
        a.len() == 0 || a.last() == '\n',
    ensures
        lines(a + b) == lines(a) + lines(b),
    decreases a.len(),
{
    if a.len() == 0 {
        assert(a + b =~= b);
    } else {
        let ab = a + b;
        let k = line_end(a) as int;
        lemma_line_end(a);
        assert(k < a.len());
        lemma_line_end_at(ab, k);
        let rest = a.subrange(k + 1, a.len() as int);
        assert(ab.subrange(0, k) =~= a.subrange(0, k));
        assert(ab.subrange(k + 1, ab.len() as int) =~= rest + b);
        lemma_lines_append(rest, b);
    }
}

/// A text without a newline and its text followed by one newline each give
/// one line.
proof fn lemma_lines_single(line: Seq<char>)
    requires
        forall|j: int| 0 <= j < line.len() ==> line[j] != '\n',
    ensures
        lines(line + seq!['\n']) == seq![strip_cr(line)],
        line.len() > 0 ==> lines(line) == seq![line],
{
    let t = line + seq!['\n'];
    lemma_line_end_at(t, line.len() as int);
    assert(t.subrange(0, line.len() as int) =~= line);
    assert(t.subrange(line.len() as int + 1, t.len() as int) =~= Seq::<char>::empty());
    assert(lines(Seq::<char>::empty()) == Seq::<Seq<char>>::empty());
    assert(seq![strip_cr(line)] + Seq::<Seq<char>>::empty() =~= seq![strip_cr(line)]);
    lemma_line_end_at(line, line.len() as int);
}

/// Splits a buffer text into its lines: the text up to each newline, without
/// that newline and without a carriage return just before it, and the text
/// after the last newline when it is not empty.
pub fn parse_names(text: &str) -> (r: Vec<String>)
    ensures
        r.deep_view() == lines(text@),
{
    let chars = chars_of(text);
    let ghost t = text@;
    let mut out: Vec<String> = Vec::new();
    let mut start: usize = 0;
    let mut i: usize = 0;
    while i < chars.len()
        invariant
            chars@ == t,
            t == text@,
            start <= i <= chars.len(),
            start == 0 || t[start - 1] == '\n',
            forall|j: int| start <= j < i ==> t[j] != '\n',
            out.deep_view() == lines(t.subrange(0, start as int)),
        decreases chars.len() - i,
    {
        if chars[i] == '\n' {
            let mut end: usize = i;
            if end > start && chars[end - 1] == '\r' {
                end = end - 1;
            }
            let line = text.substring_char(start, end).to_owned();
            proof {
                let seg = t.subrange(start as int, i as int);
                assert(line@ =~= strip_cr(seg));
                lemma_lines_single(seg);
                assert(t.subrange(start as int, i + 1) =~= seg + seq!['\n']);
                assert(t.subrange(0, i + 1) =~= t.subrange(0, start as int) + t.subrange(start as int, i + 1));
                lemma_lines_append(t.subrange(0, start as int), t.subrange(start as int, i + 1));
            }
            let ghost before = out.deep_view();
            out.push(line);
            assert(out.deep_view() =~= before.push(line@));
            start = i + 1;
        }
        i = i + 1;
    }
    if start < chars.len() {
        let line = text.substring_char(start, chars.len()).to_owned();
        proof {
            let seg = t.subrange(start as int, t.len() as int);
            assert(line@ =~= seg);
            lemma_lines_single(seg);
            assert(t =~= t.subrange(0, start as int) + seg);
            lemma_lines_append(t.subrange(0, start as int), seg);
        }
        let ghost before = out.deep_view();
        out.push(line);
        assert(out.deep_view() =~= before.push(line@));
    } else {
        assert(t.subrange(0, start as int) =~= t);
    }
    out
}

/// A name that survives a trip through the buffer: it holds no newline and
/// does not end with a carriage return.
pub open spec fn is_line_safe(name: Seq<char>) -> bool {
    &&& forall|j: int| 0 <= j < name.len() ==> name[j] != '\n'
    &&& !(name.len() > 0 && name.last() == '\r')
}

/// The text written to the temporary buffer: each name on a line of its own,
/// every line ended by a newline.
pub fn buffer_text(names: &Vec<String>) -> (r: String)
    ensures
        r@ == render(names.deep_view()),
{
    let ghost n = names.deep_view();
    let mut text = String::new();
    let mut i: usize = 0;
    while i < names.len()
        invariant
            n == names.deep_view(),
            i <= names.len(),
            text@ == render(n.take(i as int)),
        decreases names.len() - i,
    {
        proof {
            reveal_strlit("\n");
        }
        assert(n.take(i + 1).drop_last() =~= n.take(i as int));
        assert(n.take(i + 1).last() == names[i as int]@);
        let ghost before = text@;
        text.append(names[i].as_str());
        text.append("\n");
        assert(text@ =~= before + names[i as int]@ + seq!['\n']);
        i = i + 1;
    }
    assert(n.take(i as int) =~= n);
    text
}

/// Writing names to the buffer and reading it back unedited gives the same
/// names, in the same order, with no line added or lost, as long as no name
/// holds a newline or ends with a carriage return.
pub proof fn lemma_round_trip(names: Seq<Seq<char>>)
    requires
        forall|i: int| 0 <= i < names.len() ==> is_line_safe(#[trigger] names[i]),
    ensures
        lines(render(names)) == names,
    decreases names.len(),
{
    if names.len() == 0 {
        assert(lines(Seq::<char>::empty()) == Seq::<Seq<char>>::empty());
    } else {
        let init = names.drop_last();
        let last = names.last();
        lemma_round_trip(init);
        let head = render(init);
        assert(head.len() == 0 || head.last() == '\n');
        assert(render(names) =~= head + (last + seq!['\n']));
        lemma_lines_append(head, last + seq!['\n']);
        assert(is_line_safe(names[names.len() - 1]));
        lemma_lines_single(last);
        assert(strip_cr(last) == last);
        assert(names =~= init.push(last));
    }
}

} // verus!
