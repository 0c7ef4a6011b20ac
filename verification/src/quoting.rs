//! Quoting of names for direct inclusion in SQL text.
//!
//! Maintenance statements take no bound parameters for the objects they work
//! on, so names are written into the statement text. This module is the one
//! place where that is made safe: a name is written between quote marks with
//! every quote mark inside it doubled, and the laws at the end show that a
//! reader of SQL gets back exactly the name that was written, whatever
//! characters it holds.
use vstd::prelude::*;

verus! {

/// `String::push` appends the one character to the end of the string.
pub assume_specification[ String::push ](s: &mut String, c: char)
    ensures
        final(s)@ == old(s)@.push(c),
;

/// The quote mark of a string literal.
pub open spec fn literal_mark() -> char {
    '\''
}

/// The quote mark of a delimited identifier.
pub open spec fn identifier_mark() -> char {
    '"'
}

/// What one character of a name becomes between quote marks: the quote mark
/// itself is written twice, every other character stands for itself.
pub open spec fn escaped_char(c: char, mark: char) -> Seq<char> {
    if c == mark {
        seq![mark, mark]
    } else {
        seq![c]
    }
}

/// `text` with every occurrence of `mark` doubled.
pub open spec fn escaped(text: Seq<char>, mark: char) -> Seq<char>
    decreases text.len(),
{
    if text.len() == 0 {
        Seq::empty()
    } else {
        escaped_char(text[0], mark) + escaped(text.skip(1), mark)
    }
}

/// `text` between two quote marks, with the quote marks inside it doubled.
pub open spec fn quoted(text: Seq<char>, mark: char) -> Seq<char> {
    seq![mark] + escaped(text, mark) + seq![mark]
}

/// The string literal that denotes `text`.
pub open spec fn literal(text: Seq<char>) -> Seq<char> {
    quoted(text, literal_mark())
}

/// The delimited identifier that denotes `name`.
pub open spec fn identifier(name: Seq<char>) -> Seq<char> {
    quoted(name, identifier_mark())
}

/// The schema-qualified name of an object: `"schema"."object"`.
pub open spec fn qualified(schema: Seq<char>, object: Seq<char>) -> Seq<char> {
    identifier(schema) + seq!['.'] + identifier(object)
}

/// The string literals of `names`, in order, separated by commas and nothing
/// else; the empty text for no names.
pub open spec fn literal_list(names: Seq<Seq<char>>) -> Seq<char>
    decreases names.len(),
{
    if names.len() == 0 {
        Seq::empty()
    } else if names.len() == 1 {
        literal(names[0])
    } else {
        literal_list(names.drop_last()) + seq![','] + literal(names.last())
    }
}

/// Escaping distributes over concatenation.
pub proof fn lemma_escaped_concat(a: Seq<char>, b: Seq<char>, mark: char)
    ensures
        escaped(a + b, mark) == escaped(a, mark) + escaped(b, mark),
    decreases a.len(),
{
    if a.len() > 0 {
        assert((a + b).skip(1) == a.skip(1) + b);
        lemma_escaped_concat(a.skip(1), b, mark);
    }
}

/// Escaping a text of one character.
pub proof fn lemma_escaped_single(c: char, mark: char)
    ensures
        escaped(seq![c], mark) == escaped_char(c, mark),
{
    reveal_with_fuel(escaped, 2);
}

/// Appends `text` to `out`, doubling each occurrence of `mark`.
fn push_escaped(out: &mut String, text: &str, mark: char)
    ensures
        final(out)@ == old(out)@ + escaped(text@, mark),
{
    let ghost before = out@;
    for c in it: text.chars()
        invariant
            it.seq() == text@,
            out@ == before + escaped(text@.take(it.index() as int), mark),
    {
        if c == mark {
            out.push(mark);
        }
        out.push(c);
        proof {
            let i = it.index() as int;
            assert(text@.take(i + 1) == text@.take(i) + seq![c]);
            lemma_escaped_concat(text@.take(i), seq![c], mark);
            lemma_escaped_single(c, mark);
        }
    }
    assert(text@.take(text@.len() as int) == text@);
}

/// Appends `text` between two quote marks to `out`.
fn push_quoted(out: &mut String, text: &str, mark: char)
    ensures
        final(out)@ == old(out)@ + quoted(text@, mark),
{
    out.push(mark);
    push_escaped(out, text, mark);
    out.push(mark);
}

/// Writes `text` as a string literal: between single quotes, with each single
/// quote inside it doubled.
pub fn quote_literal(text: &str) -> (out: String)
    ensures
        out@ == literal(text@),
{
    let mut out = String::new();
    push_quoted(&mut out, text, '\'');
    out
}

/// Writes `name` as a delimited identifier: between double quotes, with each
/// double quote inside it doubled.
pub fn quote_identifier(name: &str) -> (out: String)
    ensures
        out@ == identifier(name@),
{
    let mut out = String::new();
    push_quoted(&mut out, name, '"');
    out
}

/// Writes the schema-qualified name `"schema"."object"`, each part a delimited
/// identifier.
pub fn qualified_name(schema: &str, object: &str) -> (out: String)
    ensures
        out@ == qualified(schema@, object@),
{
    let mut out = String::new();
    push_quoted(&mut out, schema, '"');
    out.push('.');
    push_quoted(&mut out, object, '"');
    out
}

/// Writes `names` as string literals separated by commas, with no separator
/// before the first or after the last.
pub fn render_literal_list(names: &Vec<String>) -> (out: String)
    ensures
        out@ == literal_list(names.deep_view()),
{
    let mut out = String::new();
    let ghost all = names.deep_view();
    let mut i: usize = 0;
    while i < names.len()
        invariant
            i <= names.len(),
            all == names.deep_view(),
            out@ == literal_list(all.take(i as int)),
        decreases names.len() - i,
    {
        if i > 0 {
            out.push(',');
        }
        push_quoted(&mut out, names[i].as_str(), '\'');
        assert(all.take(i + 1).drop_last() == all.take(i as int));
        i = i + 1;
    }
    assert(all.take(names.len() as int) == all);
    out
}

/// How a reader of SQL takes the inside of a quoted token, starting just
/// after the opening mark: a doubled mark stands for one mark, a single mark
/// closes the token. Gives the text that the token denotes and what follows
/// its closing mark, or `None` where the token never closes.
pub open spec fn read_body(text: Seq<char>, mark: char) -> Option<(Seq<char>, Seq<char>)>
    decreases text.len(),
{
    if text.len() == 0 {
        None
    } else if text[0] != mark {
        match read_body(text.skip(1), mark) {
            Some((body, rest)) => Some((seq![text[0]] + body, rest)),
            None => None,
        }
    } else if text.len() >= 2 && text[1] == mark {
        match read_body(text.skip(2), mark) {
            Some((body, rest)) => Some((seq![mark] + body, rest)),
            None => None,
        }
    } else {
        Some((Seq::empty(), text.skip(1)))
    }
}

/// Reads one quoted token from the start of `text`: the text it denotes and
/// what follows it.
pub open spec fn read_quoted(text: Seq<char>, mark: char) -> Option<(Seq<char>, Seq<char>)> {
    if text.len() > 0 && text[0] == mark {
        read_body(text.skip(1), mark)
    } else {
        None
    }
}

/// Reads a schema-qualified name from the start of `text`: the schema, the
/// object and what follows the name.
pub open spec fn read_qualified(text: Seq<char>) -> Option<(Seq<char>, Seq<char>, Seq<char>)> {
    match read_quoted(text, identifier_mark()) {
        Some((schema, after)) => {
            if after.len() > 0 && after[0] == '.' {
                match read_quoted(after.skip(1), identifier_mark()) {
                    Some((object, rest)) => Some((schema, object, rest)),
                    None => None,
                }
            } else {
                None
            }
        },
        None => None,
    }
}

/// Reads string literals separated by commas from the start of `text`, as
/// many as there are: the texts they denote and what follows the last.
pub open spec fn read_literal_list(text: Seq<char>) -> Option<(Seq<Seq<char>>, Seq<char>)>
    decreases text.len(),
{
    match read_quoted(text, literal_mark()) {
        Some((first, after)) => {
            if 0 < after.len() < text.len() && after[0] == ',' {
                match read_literal_list(after.skip(1)) {
                    Some((others, rest)) => Some((seq![first] + others, rest)),
                    None => None,
                }
            } else {
                Some((seq![first], after))
            }
        },
        None => None,
    }
}

/// Whether `rest` can follow a quoted token without being taken for part of
/// it: it is empty or starts with something other than the quote mark.
pub open spec fn ends_token(rest: Seq<char>, mark: char) -> bool {
    rest.len() == 0 || rest[0] != mark
}

/// The inside of a quoted token reads back as the text that was escaped.
pub proof fn lemma_read_body_escaped(text: Seq<char>, mark: char, rest: Seq<char>)
    requires
        ends_token(rest, mark),
    ensures
        read_body(escaped(text, mark) + seq![mark] + rest, mark) == Some((text, rest)),
    decreases text.len(),
{
    let input = escaped(text, mark) + seq![mark] + rest;
    if text.len() > 0 {
        let tail = text.skip(1);
        let tail_input = escaped(tail, mark) + seq![mark] + rest;
        lemma_read_body_escaped(tail, mark, rest);
        if text[0] == mark {
            assert(input.skip(2) =~= tail_input);
        } else {
            assert(input.skip(1) =~= tail_input);
        }
    }
}

/// Quoting is safe for every text: a reader takes a quoted text for one token
/// that denotes that text, and goes on right behind it. No character of the
/// text can close the token early.
pub proof fn lemma_read_quoted(text: Seq<char>, mark: char, rest: Seq<char>)
    requires
        ends_token(rest, mark),
    ensures
        read_quoted(quoted(text, mark) + rest, mark) == Some((text, rest)),
{
    let input = quoted(text, mark) + rest;
    lemma_read_body_escaped(text, mark, rest);
    assert(input.skip(1) =~= escaped(text, mark) + seq![mark] + rest);
}

/// A schema-qualified name is safe for every schema and object name: a reader
/// takes it for two identifiers joined by a dot, the schema and the object as
/// they were given, and goes on right behind it. A double quote in either name
/// cannot end its identifier.
pub proof fn lemma_read_qualified(schema: Seq<char>, object: Seq<char>, rest: Seq<char>)
    requires
        ends_token(rest, identifier_mark()),
    ensures
        read_qualified(qualified(schema, object) + rest) == Some((schema, object, rest)),
{
    let input = qualified(schema, object) + rest;
    let after = seq!['.'] + identifier(object) + rest;
    assert(input =~= identifier(schema) + after);
    lemma_read_quoted(schema, identifier_mark(), after);
    assert(after.skip(1) =~= identifier(object) + rest);
    lemma_read_quoted(object, identifier_mark(), rest);
}

/// Two qualified names are the same text only if they name the same schema and
/// the same object.
pub proof fn lemma_qualified_injective(
    schema: Seq<char>,
    object: Seq<char>,
    other_schema: Seq<char>,
    other_object: Seq<char>,
)
    requires
        qualified(schema, object) == qualified(other_schema, other_object),
    ensures
        schema == other_schema,
        object == other_object,
{
    let nothing = Seq::<char>::empty();
    lemma_read_qualified(schema, object, nothing);
    lemma_read_qualified(other_schema, other_object, nothing);
}

/// A list of literals starts with the literal of its first name.
pub proof fn lemma_literal_list_first(names: Seq<Seq<char>>)
    requires
        names.len() >= 2,
    ensures
        literal_list(names) == literal(names[0]) + seq![','] + literal_list(names.skip(1)),
    decreases names.len(),
{
    let front = names.drop_last();
    if names.len() == 2 {
        assert(literal_list(front) == literal(names[0]));
    } else {
        lemma_literal_list_first(front);
        assert(front.skip(1) =~= names.skip(1).drop_last());
    }
}

/// A rendered list of literals is safe for every list of names: a reader takes
/// it for as many literals as there were names, each denoting its name, and
/// goes on right behind the last.
pub proof fn lemma_read_literal_list(names: Seq<Seq<char>>, rest: Seq<char>)
    requires
        names.len() > 0,
        ends_token(rest, literal_mark()),
        ends_token(rest, ','),
    ensures
        read_literal_list(literal_list(names) + rest) == Some((names, rest)),
    decreases names.len(),
{
    let input = literal_list(names) + rest;
    if names.len() == 1 {
        lemma_read_quoted(names[0], literal_mark(), rest);
    } else {
        let others = names.skip(1);
        let after = seq![','] + literal_list(others) + rest;
        lemma_literal_list_first(names);
        assert(input =~= literal(names[0]) + after);
        lemma_read_quoted(names[0], literal_mark(), after);
        assert(after.skip(1) =~= literal_list(others) + rest);
        lemma_read_literal_list(others, rest);
    }
}

} // verus!
