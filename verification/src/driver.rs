//! What a driver decides between reading and running: when the input
//! typed so far is complete, what it asks for, and where one form of a
//! source file ends and the next begins.

use crate::text::chars_of;
use crate::text::count_chars;
use crate::text::counted;
use crate::text::push_char;
use crate::text::text_is;
use crate::tree::names_view;
use vstd::prelude::*;
use vstd::string::*;

verus! {

/// What the user asks for.
#[derive(Debug, PartialEq)]
pub enum Input {
    /// To leave.
    Quit,
    /// Nothing.
    Nothing,
    /// To have this text evaluated.
    Command(String),
}

/// Adds a line to the input typed so far, with a blank on either side.
pub fn append_line(user_input: &mut String, line: &str)
    ensures
        final(user_input)@ == old(user_input)@ + " "@ + line@ + " "@,
{
    user_input.append(" ");
    user_input.append(line);
    user_input.append(" ");
}

/// Whether the input holds as many `(` as `)`, so that no form is open.
pub fn is_balanced(user_input: &String) -> (r: bool)
    ensures
        r == (counted(user_input@, '(') == counted(user_input@, ')')),
{
    count_chars(user_input, '(') == count_chars(user_input, ')')
}

/// What the input asks for: ` q ` to leave, two blanks nothing, any other
/// text to be evaluated.
pub fn classify_input(user_input: String) -> (r: Input)
    ensures
        r is Quit <==> user_input@ == " q "@,
        r is Nothing <==> user_input@ != " q "@ && user_input@ == "  "@,
        r matches Input::Command(text) ==> text@ == user_input@,
{
    if text_is(user_input.as_str(), " q ") {
        Input::Quit
    } else if text_is(user_input.as_str(), "  ") {
        Input::Nothing
    } else {
        Input::Command(user_input)
    }
}

/// How far the splitting of a source text has come: the forms so far, the
/// text of the form that it is within, the parentheses opened and
/// closed within it, and whether it is within a comment.
pub struct SplitState {
    pub forms: Seq<Seq<char>>,
    pub expr: Seq<char>,
    pub opened: nat,
    pub closed: nat,
    pub in_comment: bool,
}

/// The state after one more character. A comment runs from `;` to the
/// end of the line and counts for nothing; the end of a line is left
/// out; a `)` that closes as many as were opened ends a form.
pub open spec fn split_step(state: SplitState, c: char) -> SplitState {
    if state.in_comment {
        SplitState { in_comment: c != '\n', ..state }
    } else if c == '(' {
        SplitState { expr: state.expr.push(c), opened: state.opened + 1, ..state }
    } else if c == ')' {
        if state.opened == state.closed + 1 {
            SplitState {
                forms: state.forms.push(state.expr.push(c)),
                expr: Seq::empty(),
                opened: 0,
                closed: 0,
                in_comment: false,
            }
        } else {
            SplitState { expr: state.expr.push(c), closed: state.closed + 1, ..state }
        }
    } else if c == ';' {
        SplitState { in_comment: true, ..state }
    } else if c == '\n' {
        state
    } else {
        SplitState { expr: state.expr.push(c), ..state }
    }
}

/// The state after the characters of `text`.
pub open spec fn split_so_far(text: Seq<char>) -> SplitState
    decreases text.len(),
{
    if text.len() == 0 {
        SplitState {
            forms: Seq::empty(),
            expr: Seq::empty(),
            opened: 0,
            closed: 0,
            in_comment: false,
        }
    } else {
        split_step(split_so_far(text.drop_last()), text.last())
    }
}

/// The forms of a source text, in order. What follows the last complete
/// form is left out.
pub fn split_forms(contents: &str) -> (r: Vec<String>)
    ensures
        names_view(r@) == split_so_far(contents@).forms,
{
    let chars = chars_of(contents);
    let mut forms: Vec<String> = Vec::new();
    let mut num_lparen: usize = 0;
    let mut num_rparen: usize = 0;
    let mut expr = String::new();
    let mut in_comment = false;
    let mut i: usize = 0;
    assert(names_view(forms@) == Seq::<Seq<char>>::empty());
    while i < chars.len()
        invariant
            i <= chars.len(),
            chars@ == contents@,
            num_lparen <= i,
            num_rparen <= i,
            split_so_far(chars@.take(i as int)) == (SplitState {
                forms: names_view(forms@),
                expr: expr@,
                opened: num_lparen as nat,
                closed: num_rparen as nat,
                in_comment,
            }),
        decreases chars.len() - i,
    {
        let c = chars[i];
        proof {
            assert(chars@.take(i + 1).drop_last() == chars@.take(i as int));
            assert(chars@.take(i + 1).last() == c);
        }
        if in_comment {
            in_comment = c != '\n';
        } else if c == '(' {
            num_lparen += 1;
            push_char(&mut expr, c);
        } else if c == ')' {
            num_rparen += 1;
            push_char(&mut expr, c);
            if num_lparen == num_rparen {
                num_lparen = 0;
                num_rparen = 0;
                let ghost before = names_view(forms@);
                let ghost form = expr@;
                forms.push(expr);
                assert(names_view(forms@) == before.push(form));
                expr = String::new();
            }
        } else if c == ';' {
            in_comment = true;
        } else if c == '\n' {
        } else {
            push_char(&mut expr, c);
        }
        i += 1;
    }
    assert(chars@.take(i as int) == chars@);
    forms
}

} // verus!
