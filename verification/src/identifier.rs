//! SQL identifiers: quoting, and the paths that name the columns of nested
//! records.

use vstd::prelude::*;
use vstd::string::StringExecFns;

verus! {

/// `text` with every double quote in it written twice.
pub open spec fn doubled(text: Seq<char>) -> Seq<char>
    decreases text.len(),
{
    if text.len() == 0 {
        Seq::empty()
    } else if text.last() == '"' {
        doubled(text.drop_last()).push('"').push('"')
    } else {
        doubled(text.drop_last()).push(text.last())
    }
}

/// `text` as a quoted identifier: between double quotes, with every double
/// quote inside written twice.
pub open spec fn quoted(text: Seq<char>) -> Seq<char> {
    seq!['"'] + doubled(text) + seq!['"']
}

/// `String::push`: appends one character to the text.
#[verifier::external_body]
fn push_char(text: &mut String, c: char)
    ensures
        final(text)@ == old(text)@.push(c),
{
    text.push(c)
}

/// Writes `name` as a quoted identifier.
pub fn escape_identifier(name: &str) -> (escaped: String)
    ensures
        escaped@ == quoted(name@),
{
    let mut escaped = String::new();
    push_char(&mut escaped, '"');
    for c in it: name.chars()
        invariant
            it.seq() == name@,
            escaped@ == seq!['"'] + doubled(name@.take(it.index() as int)),
    {
        proof {
            let done = name@.take(it.index() as int);
            let next = name@.take(it.index() as int + 1);
            assert(next.drop_last() =~= done);
            assert(next.last() == c);
        }
        if c == '"' {
            push_char(&mut escaped, '"');
        }
        push_char(&mut escaped, c);
    }
    proof {
        assert(name@.take(name@.len() as int) =~= name@);
    }
    push_char(&mut escaped, '"');
    escaped
}

/// Doubling the quotes of a text is doubling them in each of its parts.
pub proof fn lemma_doubled_in_parts(front: Seq<char>, back: Seq<char>)
    ensures
        doubled(front + back) == doubled(front) + doubled(back),
    decreases back.len(),
{
    if back.len() == 0 {
        assert(front + back =~= front);
        assert(doubled(front) + doubled(back) =~= doubled(front));
    } else {
        let whole = front + back;
        assert(whole.drop_last() =~= front + back.drop_last());
        assert(whole.last() == back.last());
        lemma_doubled_in_parts(front, back.drop_last());
        if back.last() == '"' {
            assert(doubled(whole) =~= doubled(front) + doubled(back.drop_last()).push('"').push(
                '"',
            ));
        } else {
            assert(doubled(whole) =~= doubled(front) + doubled(back.drop_last()).push(
                back.last(),
            ));
        }
    }
}

/// A quote inside a name is written twice, and what stands before and
/// behind it is written as it would be alone; the whole stands between
/// quotes.
pub proof fn lemma_quote_is_doubled(front: Seq<char>, back: Seq<char>)
    ensures
        quoted(front + seq!['"'] + back) == seq!['"'] + doubled(front) + seq!['"', '"'] + doubled(
            back,
        ) + seq!['"'],
{
    let quote = seq!['"'];
    lemma_doubled_in_parts(front + quote, back);
    lemma_doubled_in_parts(front, quote);
    assert(doubled(quote.drop_last()) =~= Seq::<char>::empty());
    assert(doubled(quote) =~= seq!['"', '"']);
    assert(quoted(front + quote + back) =~= seq!['"'] + doubled(front) + seq!['"', '"'] + doubled(
        back,
    ) + seq!['"']);
}

/// A name without a quote in it is written as it is, between quotes.
pub proof fn lemma_plain_is_kept(text: Seq<char>)
    requires
        forall|i: int| 0 <= i < text.len() ==> text[i] != '"',
    ensures
        doubled(text) == text,
        quoted(text) == seq!['"'] + text + seq!['"'],
    decreases text.len(),
{
    if text.len() > 0 {
        lemma_plain_is_kept(text.drop_last());
        assert(text.drop_last().push(text.last()) =~= text);
    }
}

/// Quoting loses nothing: two names that are written alike are the same name.
pub proof fn lemma_quoted_is_faithful(left: Seq<char>, right: Seq<char>)
    requires
        quoted(left) == quoted(right),
    ensures
        left == right,
{
    let quote = seq!['"'];
    assert(doubled(left) =~= quoted(left).subrange(1, quoted(left).len() - 1));
    assert(doubled(right) =~= quoted(right).subrange(1, quoted(right).len() - 1));
    lemma_doubled_is_faithful(left, right);
}

/// Doubling the quotes loses nothing.
pub proof fn lemma_doubled_is_faithful(left: Seq<char>, right: Seq<char>)
    requires
        doubled(left) == doubled(right),
    ensures
        left == right,
    decreases left.len(),
{
    if left.len() == 0 {
        if right.len() > 0 {
            assert(doubled(right).len() > 0);
        }
        assert(left =~= right);
    } else if right.len() == 0 {
        assert(doubled(left).len() > 0);
    } else {
        assert(doubled(left).last() == left.last());
        assert(doubled(right).last() == right.last());
        if left.last() == '"' {
            assert(doubled(left).drop_last().drop_last() =~= doubled(left.drop_last()));
            assert(doubled(right).drop_last().drop_last() =~= doubled(right.drop_last()));
        } else {
            assert(doubled(left).drop_last() =~= doubled(left.drop_last()));
            assert(doubled(right).drop_last() =~= doubled(right.drop_last()));
        }
        lemma_doubled_is_faithful(left.drop_last(), right.drop_last());
        assert(left =~= left.drop_last().push(left.last()));
        assert(right =~= right.drop_last().push(right.last()));
    }
}

/// The path to a column: the name of a field, behind the path to the record
/// that the field belongs to, if it belongs to one.
pub struct Names<'a>(pub Option<&'a Names<'a>>, pub &'static str);

impl<'a> Names<'a> {
    /// The path as a column expression: the quoted name of the field, behind
    /// the expression for the record it belongs to, in parentheses and
    /// followed by a dot.
    pub open spec fn rendered(&self) -> Seq<char>
        decreases self,
    {
        match self.0 {
            Some(record) => seq!['('] + record.rendered() + seq![')', '.'] + quoted(self.1@),
            None => quoted(self.1@),
        }
    }

    /// The names on the path, from the outermost record to the field.
    pub open spec fn segments(&self) -> Seq<Seq<char>>
        decreases self,
    {
        match self.0 {
            Some(record) => record.segments().push(self.1@),
            None => seq![self.1@],
        }
    }

    /// The number of names on the path.
    pub open spec fn depth(&self) -> nat
        decreases self,
    {
        match self.0 {
            Some(record) => record.depth() + 1,
            None => 1,
        }
    }

    /// Writes the path as a column expression.
    pub fn to_string(&self) -> (text: String)
        ensures
            text@ == self.rendered(),
        decreases self,
    {
        let mut text = String::new();
        if let Some(record) = self.0 {
            push_char(&mut text, '(');
            let inner = record.to_string();
            text.append(inner.as_str());
            push_char(&mut text, ')');
            push_char(&mut text, '.');
        }
        let name = escape_identifier(self.1);
        text.append(name.as_str());
        proof {
            assert(text@ =~= self.rendered());
        }
        text
    }
}

/// `count` opening parentheses.
pub open spec fn parentheses(count: nat) -> Seq<char> {
    Seq::new(count, |i: int| '(')
}

/// The names quoted and chained: the first as it is, each later one behind
/// a closing parenthesis and a dot.
pub open spec fn chained(names: Seq<Seq<char>>) -> Seq<char>
    recommends
        names.len() > 0,
    decreases names.len(),
{
    if names.len() <= 1 {
        quoted(names[0])
    } else {
        chained(names.drop_last()) + seq![')', '.'] + quoted(names.last())
    }
}

/// A path of `d + 1` names is written as `d` opening parentheses, the
/// quoted name of the outermost record, and then each further name, quoted,
/// behind a closing parenthesis and a dot.
pub proof fn lemma_path_is_flat(path: &Names<'_>)
    ensures
        path.segments().len() == path.depth(),
        path.depth() >= 1,
        path.rendered() == parentheses((path.depth() - 1) as nat) + chained(path.segments()),
    decreases path,
{
    match path.0 {
        Some(record) => {
            lemma_path_is_flat(record);
            let names = path.segments();
            assert(names.drop_last() =~= record.segments());
            assert(names.last() == path.1@);
            assert(seq!['('] + parentheses((record.depth() - 1) as nat) =~= parentheses(
                (path.depth() - 1) as nat,
            ));
            assert(path.rendered() =~= parentheses((path.depth() - 1) as nat) + chained(names));
        },
        None => {
            assert(parentheses(0) + chained(path.segments()) =~= quoted(path.1@));
        },
    }
}

/// Where the quoted name that ends at `last` opens, found from its end:
/// every character that is no quote belongs to the name, and so do two
/// quotes side by side; a quote alone opens the name.
pub open spec fn opening(text: Seq<char>, last: int) -> int
    decreases last + 1,
{
    if last < 0 || last >= text.len() {
        -1
    } else if text[last] != '"' {
        opening(text, last - 1)
    } else if last >= 1 && text[last - 1] == '"' {
        opening(text, last - 2)
    } else {
        last
    }
}

/// Behind a text that does not end in a quote, a quoted name opens where
/// the text ends, whatever follows the doubled name.
proof fn lemma_opening_is_found(front: Seq<char>, name: Seq<char>, back: Seq<char>)
    requires
        front.len() == 0 || front.last() != '"',
    ensures
        opening(
            front + seq!['"'] + doubled(name) + back,
            (front.len() + doubled(name).len()) as int,
        ) == front.len(),
    decreases name.len(),
{
    let text = front + seq!['"'] + doubled(name) + back;
    let last = (front.len() + doubled(name).len()) as int;
    if name.len() == 0 {
        assert(text[last] == '"');
        if front.len() > 0 {
            assert(text[last - 1] == front.last());
        }
    } else {
        let shorter = name.drop_last();
        if name.last() == '"' {
            let rest = seq!['"', '"'] + back;
            assert(text =~= front + seq!['"'] + doubled(shorter) + rest);
            lemma_opening_is_found(front, shorter, rest);
            assert(text[last] == '"');
            assert(text[last - 1] == '"');
        } else {
            let rest = seq![name.last()] + back;
            assert(text =~= front + seq!['"'] + doubled(shorter) + rest);
            lemma_opening_is_found(front, shorter, rest);
            assert(text[last] == name.last());
        }
    }
}

/// Two texts that end in a quoted name and are alike end in the same name
/// behind the same front, where neither front ends in a quote.
proof fn lemma_last_name_is_told(
    left: Seq<char>,
    left_name: Seq<char>,
    right: Seq<char>,
    right_name: Seq<char>,
)
    requires
        left.len() == 0 || left.last() != '"',
        right.len() == 0 || right.last() != '"',
        left + quoted(left_name) == right + quoted(right_name),
    ensures
        left == right,
        left_name == right_name,
{
    let text = left + quoted(left_name);
    let close = seq!['"'];
    assert(text =~= left + seq!['"'] + doubled(left_name) + close);
    assert(text =~= right + seq!['"'] + doubled(right_name) + close);
    lemma_opening_is_found(left, left_name, close);
    lemma_opening_is_found(right, right_name, close);
    assert(left.len() + doubled(left_name).len() == text.len() - 2);
    assert(right.len() + doubled(right_name).len() == text.len() - 2);
    assert(left.len() == right.len());
    assert(left =~= text.take(left.len() as int));
    assert(right =~= text.take(right.len() as int));
    assert(quoted(left_name) =~= text.skip(left.len() as int));
    assert(quoted(right_name) =~= text.skip(right.len() as int));
    lemma_quoted_is_faithful(left_name, right_name);
}

/// What stands in front of the last name of a chain.
spec fn front_of(names: Seq<Seq<char>>) -> Seq<char> {
    if names.len() <= 1 {
        Seq::empty()
    } else {
        chained(names.drop_last()) + seq![')', '.']
    }
}

/// Chaining loses nothing: two chains that are written alike are chains of
/// the same names.
pub proof fn lemma_chained_is_faithful(left: Seq<Seq<char>>, right: Seq<Seq<char>>)
    requires
        left.len() >= 1,
        right.len() >= 1,
        chained(left) == chained(right),
    ensures
        left == right,
    decreases left.len(),
{
    assert(chained(left) =~= front_of(left) + quoted(left.last()));
    assert(chained(right) =~= front_of(right) + quoted(right.last()));
    assert(front_of(left).len() == 0 || front_of(left).last() == '.');
    assert(front_of(right).len() == 0 || front_of(right).last() == '.');
    lemma_last_name_is_told(front_of(left), left.last(), front_of(right), right.last());
    if left.len() == 1 {
        assert(front_of(right).len() == 0);
        assert(right.len() == 1);
        assert(left =~= right);
    } else {
        assert(front_of(left).len() >= 2);
        assert(right.len() > 1);
        let tail = seq![')', '.'];
        assert(chained(left.drop_last()) =~= front_of(left).subrange(
            0,
            front_of(left).len() - 2,
        ));
        assert(chained(right.drop_last()) =~= front_of(right).subrange(
            0,
            front_of(right).len() - 2,
        ));
        lemma_chained_is_faithful(left.drop_last(), right.drop_last());
        assert(left =~= left.drop_last().push(left.last()));
        assert(right =~= right.drop_last().push(right.last()));
    }
}

/// A chain opens with a quote, and so with no parenthesis.
proof fn lemma_chained_opens_with_quote(names: Seq<Seq<char>>)
    requires
        names.len() >= 1,
    ensures
        chained(names).len() > 0,
        chained(names)[0] == '"',
    decreases names.len(),
{
    if names.len() > 1 {
        lemma_chained_opens_with_quote(names.drop_last());
    }
}

/// Two paths are never written alike unless they are made of the same
/// names in the same order.
pub proof fn lemma_rendered_is_faithful(left: &Names<'_>, right: &Names<'_>)
    requires
        left.rendered() == right.rendered(),
    ensures
        left.segments() == right.segments(),
{
    lemma_path_is_flat(left);
    lemma_path_is_flat(right);
    let text = left.rendered();
    let m = (left.depth() - 1) as nat;
    let n = (right.depth() - 1) as nat;
    lemma_chained_opens_with_quote(left.segments());
    lemma_chained_opens_with_quote(right.segments());
    let a = parentheses(m) + chained(left.segments());
    let b = parentheses(n) + chained(right.segments());
    if m < n {
        assert(a[m as int] == chained(left.segments())[0]);
        assert(b[m as int] == '(');
        assert(false);
    }
    if n < m {
        assert(b[n as int] == chained(right.segments())[0]);
        assert(a[n as int] == '(');
        assert(false);
    }
    assert(chained(left.segments()) =~= a.skip(m as int));
    assert(chained(right.segments()) =~= b.skip(n as int));
    lemma_chained_is_faithful(left.segments(), right.segments());
}

} // verus!
