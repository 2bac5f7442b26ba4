//! The tab-delimited record grammar.
//!
//! A document is a sequence of records, each ended by a line feed; a record
//! is a sequence of fields separated by tabs, with no quoting or escaping.
//! `split_on` and `join_with` are the two directions of that grammar at the
//! specification level; the executable splitters are proved against them,
//! and the join lemmas below show that splitting undoes joining whenever the
//! fields are free of the separator.

use vstd::prelude::*;

verus! {

/// True when the character `c` occurs nowhere in `s`.
pub open spec fn free_of(s: Seq<char>, c: char) -> bool {
    forall|i: int| 0 <= i < s.len() ==> s[i] != c
}

/// The fields of `s` split on the separator `c`. Splitting the empty
/// sequence gives one empty field, and every occurrence of the separator
/// ends a field, so the result always holds one more field than there are
/// separators in `s`.
pub open spec fn split_on(s: Seq<char>, c: char) -> Seq<Seq<char>>
    decreases s.len(),
{
    if s.len() == 0 {
        seq![Seq::<char>::empty()]
    } else if s[0] == c {
        seq![Seq::<char>::empty()] + split_on(s.drop_first(), c)
    } else {
        let rest = split_on(s.drop_first(), c);
        seq![seq![s[0]] + rest[0]] + rest.drop_first()
    }
}

/// True when `f` can be carried as one field of a record: it holds neither
/// the tab delimiter nor a line break.
pub open spec fn field_ok(f: Seq<char>) -> bool {
    free_of(f, '\t') && free_of(f, '\n')
}

/// True when every field of `v` can be carried.
pub open spec fn fields_ok(v: Seq<Seq<char>>) -> bool {
    forall|i: int| 0 <= i < v.len() ==> field_ok(#[trigger] v[i])
}

/// The fields of `fields` joined with the separator `c` between them.
pub open spec fn join_with(fields: Seq<Seq<char>>, c: char) -> Seq<char>
    decreases fields.len(),
{
    if fields.len() == 0 {
        Seq::<char>::empty()
    } else if fields.len() == 1 {
        fields[0]
    } else {
        fields[0] + seq![c] + join_with(fields.drop_first(), c)
    }
}

/// The lines of `lines`, each ended by a line feed.
pub open spec fn join_lines(lines: Seq<Seq<char>>) -> Seq<char>
    decreases lines.len(),
{
    if lines.len() == 0 {
        Seq::<char>::empty()
    } else {
        lines[0] + seq!['\n'] + join_lines(lines.drop_first())
    }
}

/// Splitting always yields at least one field.
pub proof fn lemma_split_on_nonempty(s: Seq<char>, c: char)
    ensures
        split_on(s, c).len() >= 1,
    decreases s.len(),
{
    if s.len() == 0 {
    } else {
        lemma_split_on_nonempty(s.drop_first(), c);
    }
}

/// Splitting a sequence that is free of the separator yields that sequence
/// as the single field.
pub proof fn lemma_split_on_free(s: Seq<char>, c: char)
    requires
        free_of(s, c),
    ensures
        split_on(s, c) == seq![s],
    decreases s.len(),
{
    if s.len() == 0 {
        assert(s =~= Seq::<char>::empty());
        assert(split_on(s, c) =~~= seq![s]);
    } else {
        assert(s[0] != c);
        assert(free_of(s.drop_first(), c)) by {
            assert(forall|i: int|
                0 <= i < s.drop_first().len() ==> s.drop_first()[i] == s[i + 1]);
        }
        lemma_split_on_free(s.drop_first(), c);
        assert(seq![s[0]] + s.drop_first() =~= s);
        assert(split_on(s, c) =~~= seq![s]);
    }
}

/// Splitting at the first separator: when `a` is free of `c`, the split of
/// `a + [c] + b` is `a` followed by the split of `b`.
pub proof fn lemma_split_on_append(a: Seq<char>, b: Seq<char>, c: char)
    requires
        free_of(a, c),
    ensures
        split_on(a + seq![c] + b, c) == seq![a] + split_on(b, c),
    decreases a.len(),
{
    let s = a + seq![c] + b;
    lemma_split_on_nonempty(b, c);
    if a.len() == 0 {
        assert(s[0] == c);
        assert(s.drop_first() =~= b);
        assert(a =~= Seq::<char>::empty());
        assert(split_on(s, c) =~~= seq![a] + split_on(b, c));
    } else {
        assert(s[0] == a[0]);
        assert(a[0] != c);
        assert(free_of(a.drop_first(), c)) by {
            assert(forall|i: int|
                0 <= i < a.drop_first().len() ==> a.drop_first()[i] == a[i + 1]);
        }
        assert(s.drop_first() =~= a.drop_first() + seq![c] + b);
        lemma_split_on_append(a.drop_first(), b, c);
        let rest = split_on(s.drop_first(), c);
        assert(rest == seq![a.drop_first()] + split_on(b, c));
        assert(rest[0] == a.drop_first());
        assert(rest.drop_first() =~= split_on(b, c));
        assert(seq![s[0]] + rest[0] =~= a);
        assert(split_on(s, c) =~~= seq![a] + split_on(b, c));
    }
}

/// Splitting undoes joining: when every field is free of the separator,
/// splitting the joined text gives the fields back.
pub proof fn lemma_split_join(fields: Seq<Seq<char>>, c: char)
    requires
        fields.len() >= 1,
        forall|i: int| 0 <= i < fields.len() ==> free_of(#[trigger] fields[i], c),
    ensures
        split_on(join_with(fields, c), c) == fields,
    decreases fields.len(),
{
    if fields.len() == 1 {
        lemma_split_on_free(fields[0], c);
        assert(split_on(join_with(fields, c), c) =~~= fields);
    } else {
        assert(forall|i: int|
            0 <= i < fields.drop_first().len()
                ==> #[trigger] fields.drop_first()[i] == fields[i + 1]);
        lemma_split_join(fields.drop_first(), c);
        lemma_split_on_append(fields[0], join_with(fields.drop_first(), c), c);
        assert(split_on(join_with(fields, c), c) =~~= fields);
    }
}

/// Joining one more field on the right appends a separator and that field.
pub proof fn lemma_join_with_push(fields: Seq<Seq<char>>, x: Seq<char>, c: char)
    requires
        fields.len() >= 1,
    ensures
        join_with(fields.push(x), c) == join_with(fields, c) + seq![c] + x,
    decreases fields.len(),
{
    if fields.len() == 1 {
        assert(fields.push(x).drop_first() =~= seq![x]);
        assert(join_with(seq![x], c) == x);
        assert(join_with(fields.push(x), c) =~= join_with(fields, c) + seq![c] + x);
    } else {
        assert(fields.push(x).drop_first() =~= fields.drop_first().push(x));
        lemma_join_with_push(fields.drop_first(), x, c);
        assert(join_with(fields.push(x), c) =~= join_with(fields, c) + seq![c] + x);
    }
}

/// A join is free of any character that differs from the separator and from
/// every character of every field.
pub proof fn lemma_join_with_free(fields: Seq<Seq<char>>, c: char, d: char)
    requires
        c != d,
        forall|i: int| 0 <= i < fields.len() ==> free_of(#[trigger] fields[i], d),
    ensures
        free_of(join_with(fields, c), d),
    decreases fields.len(),
{
    if fields.len() <= 1 {
    } else {
        assert(forall|i: int|
            0 <= i < fields.drop_first().len()
                ==> #[trigger] fields.drop_first()[i] == fields[i + 1]);
        lemma_join_with_free(fields.drop_first(), c, d);
        let j = fields[0] + seq![c] + join_with(fields.drop_first(), c);
        assert(free_of(j, d)) by {
            assert(forall|i: int| 0 <= i < j.len() ==> j[i] != d);
        }
    }
}

/// Joining one more line on the right appends that line and a line feed.
pub proof fn lemma_join_lines_push(lines: Seq<Seq<char>>, x: Seq<char>)
    ensures
        join_lines(lines.push(x)) == join_lines(lines) + x + seq!['\n'],
    decreases lines.len(),
{
    let l2 = lines.push(x);
    if lines.len() == 0 {
        assert(l2[0] == x);
        assert(l2.drop_first() =~= Seq::<Seq<char>>::empty());
        assert(join_lines(Seq::<Seq<char>>::empty()) == Seq::<char>::empty());
        assert(join_lines(l2) == l2[0] + seq!['\n'] + join_lines(l2.drop_first()));
        assert(join_lines(l2) =~= join_lines(lines) + x + seq!['\n']);
    } else {
        assert(l2[0] == lines[0]);
        assert(l2.drop_first() =~= lines.drop_first().push(x));
        lemma_join_lines_push(lines.drop_first(), x);
        assert(join_lines(l2) == l2[0] + seq!['\n'] + join_lines(l2.drop_first()));
        assert(join_lines(lines) == lines[0] + seq!['\n'] + join_lines(lines.drop_first()));
        assert(join_lines(l2) =~= join_lines(lines) + x + seq!['\n']);
    }
}

/// Splitting a line-feed-terminated document on the line feed gives the
/// lines back, followed by one empty trailing field.
pub proof fn lemma_split_join_lines(lines: Seq<Seq<char>>)
    requires
        forall|i: int| 0 <= i < lines.len() ==> free_of(#[trigger] lines[i], '\n'),
    ensures
        split_on(join_lines(lines), '\n') == lines.push(Seq::<char>::empty()),
    decreases lines.len(),
{
    if lines.len() == 0 {
        assert(split_on(join_lines(lines), '\n') =~~= lines.push(Seq::<char>::empty()));
    } else {
        assert(forall|i: int|
            0 <= i < lines.drop_first().len()
                ==> #[trigger] lines.drop_first()[i] == lines[i + 1]);
        lemma_split_join_lines(lines.drop_first());
        lemma_split_on_append(lines[0], join_lines(lines.drop_first()), '\n');
        assert(split_on(join_lines(lines), '\n') =~~= lines.push(Seq::<char>::empty()));
    }
}

/// The records of a document: its text split on line feeds, with the empty
/// segment after a final line feed dropped, so that a document ending in a
/// line feed and one ending without it hold the same records.
pub open spec fn spec_records(text: Seq<char>) -> Seq<Seq<char>> {
    let parts = split_on(text, '\n');
    if parts[parts.len() - 1].len() == 0 {
        parts.drop_last()
    } else {
        parts
    }
}

/// Splits `s` on the separator `c`, one `String` per field.
pub fn split_str_on(s: &str, c: char) -> (r: Vec<String>)
    ensures
        r.deep_view() == split_on(s@, c),
{
    let n: usize = s.unicode_len();
    let mut out: Vec<String> = Vec::new();
    let mut start: usize = 0;
    let mut i: usize = 0;
    proof {
        assert(out.deep_view() =~= Seq::<Seq<char>>::empty());
        assert(s@.skip(0) =~= s@);
        assert(Seq::<Seq<char>>::empty() + split_on(s@, c) =~= split_on(s@, c));
    }
    while i < n
        invariant
            start <= i <= n,
            n == s@.len(),
            free_of(s@.subrange(start as int, i as int), c),
            split_on(s@, c) == out.deep_view() + split_on(s@.skip(start as int), c),
        decreases n - i,
    {
        let ch = s.get_char(i);
        if ch == c {
            let ghost head = s@.subrange(start as int, i as int);
            let ghost tail = s@.skip(i as int + 1);
            let ghost dv0 = out.deep_view();
            let field = String::from_str(s.substring_char(start, i));
            proof {
                assert(s@.skip(start as int) =~= head + seq![c] + tail);
                lemma_split_on_append(head, tail, c);
                assert(dv0 + (seq![head] + split_on(tail, c)) =~= dv0.push(head) + split_on(
                    tail,
                    c,
                ));
            }
            out.push(field);
            proof {
                assert(out.deep_view() =~= dv0.push(head));
            }
            start = i + 1;
            proof {
                assert(s@.subrange(start as int, start as int) =~= Seq::<char>::empty());
            }
        } else {
            proof {
                assert(s@.subrange(start as int, i as int + 1) =~= s@.subrange(
                    start as int,
                    i as int,
                ).push(s@[i as int]));
            }
        }
        i = i + 1;
    }
    let ghost head = s@.subrange(start as int, n as int);
    let ghost dv0 = out.deep_view();
    let field = String::from_str(s.substring_char(start, n));
    proof {
        assert(s@.skip(start as int) =~= head);
        lemma_split_on_free(head, c);
        assert(dv0 + seq![head] =~= dv0.push(head));
    }
    out.push(field);
    proof {
        assert(out.deep_view() =~= dv0.push(head));
        assert(out.deep_view() =~= split_on(s@, c));
    }
    out
}

/// The records of `text`, one `String` per record.
pub fn records_of(text: &str) -> (r: Vec<String>)
    ensures
        r.deep_view() == spec_records(text@),
{
    let mut parts = split_str_on(text, '\n');
    proof {
        lemma_split_on_nonempty(text@, '\n');
    }
    let last = parts.len() - 1;
    if parts[last].as_str().unicode_len() == 0 {
        let ghost dv0 = parts.deep_view();
        let _ = parts.pop();
        proof {
            assert(parts.deep_view() =~= dv0.drop_last());
        }
    } else {
        proof {
            assert(parts.deep_view()[parts@.len() - 1].len() != 0);
        }
    }
    parts
}

/// True when `s` holds no occurrence of `c`.
pub fn str_free_of(s: &str, c: char) -> (b: bool)
    ensures
        b == free_of(s@, c),
{
    let n: usize = s.unicode_len();
    let mut i: usize = 0;
    while i < n
        invariant
            i <= n,
            n == s@.len(),
            forall|j: int| 0 <= j < i ==> s@[j] != c,
        decreases n - i,
    {
        if s.get_char(i) == c {
            return false;
        }
        i = i + 1;
    }
    true
}

} // verus!
