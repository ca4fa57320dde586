//! How a value is written.

use crate::arith::decimal_text as host_text;
use crate::decimal::DecimalQuery;
use crate::decimal::DecimalQueryView;
use crate::decimal::Ledger;
use crate::error::Error;
use crate::error::ErrorView;
use crate::integer::decimal_text;
use crate::semantics::text_answer;
use crate::semantics::Answers;
use crate::tree::lemma_objects_view;
use crate::tree::objects_view;
use crate::tree::ObjectView;
use crate::tree::StutterObject;
use vstd::prelude::*;
use vstd::string::*;

verus! {

/// A text, or an error, as a mathematical value.
pub open spec fn text_result_view(r: Result<String, Error>) -> Result<Seq<char>, ErrorView> {
    match r {
        Ok(text) => Ok(text@),
        Err(e) => Err(e@),
    }
}

/// How a value is written: `Nil`; an integer in decimal digits; a decimal
/// as the host writes it; `True` or `False`; a name as it is; `<lambda>`
/// for any function; a list as its items between parentheses, parted by
/// one blank.
pub open spec fn rendered(value: ObjectView, answers: Answers) -> Result<Seq<char>, ErrorView>
    decreases value, 0nat,
{
    match value {
        ObjectView::Nil => Ok("Nil"@),
        ObjectView::Int(n) => Ok(decimal_text(n)),
        ObjectView::Dec(d) => text_answer(DecimalQueryView::Display(d), answers),
        ObjectView::Bool(b) => Ok(
            if b {
                "True"@
            } else {
                "False"@
            },
        ),
        ObjectView::Id(name) => Ok(name),
        ObjectView::Lambda(_, _) => Ok("<lambda>"@),
        ObjectView::List(items) => match items_rendered(items, items.len(), answers) {
            Err(e) => Err(e),
            Ok(inner) => Ok("("@ + inner + ")"@),
        },
    }
}

/// The first `count` items as they are written, parted by one blank.
pub open spec fn items_rendered(items: Seq<ObjectView>, count: nat, answers: Answers) -> Result<
    Seq<char>,
    ErrorView,
>
    decreases items, count,
{
    if count == 0 || count > items.len() {
        Ok(Seq::empty())
    } else {
        match items_rendered(items, (count - 1) as nat, answers) {
            Err(e) => Err(e),
            Ok(before) => match rendered(items[count - 1], answers) {
                Err(e) => Err(e),
                Ok(text) => Ok(
                    if count == 1 {
                        text
                    } else {
                        before + " "@ + text
                    },
                ),
            },
        }
    }
}

/// Once an item among the first cannot be written, neither can more of
/// them.
proof fn lemma_items_rendered_fails(
    items: Seq<ObjectView>,
    count: nat,
    total: nat,
    answers: Answers,
)
    requires
        count <= total <= items.len(),
        items_rendered(items, count, answers) is Err,
    ensures
        items_rendered(items, total, answers) == items_rendered(items, count, answers),
    decreases total,
{
    if count < total {
        lemma_items_rendered_fails(items, count, (total - 1) as nat, answers);
    }
}

/// The text that the value is written as.
pub fn render(value: &StutterObject, ledger: &Ledger) -> (r: Result<String, Error>)
    ensures
        text_result_view(r) == rendered(value@, ledger@),
    decreases value,
{
    match value {
        StutterObject::Nil => Ok(String::from_str("Nil")),
        StutterObject::Int(i) => Ok(i.to_text()),
        StutterObject::Dec(d) => host_text(ledger, DecimalQuery::Display(*d)),
        StutterObject::Bool(b) => Ok(
            if *b {
                String::from_str("True")
            } else {
                String::from_str("False")
            },
        ),
        StutterObject::Id(s) => Ok(s.clone()),
        StutterObject::Lambda(_l, _tree) => Ok(String::from_str("<lambda>")),
        StutterObject::List(vec) => {
            let ghost items = objects_view(vec@);
            proof {
                lemma_objects_view(vec@);
            }
            let mut inner = String::new();
            let mut i: usize = 0;
            while i < vec.len()
                invariant
                    i <= vec.len(),
                    value is List,
                    value->List_0 == *vec,
                    items == objects_view(vec@),
                    items.len() == vec.len(),
                    forall|j: int| 0 <= j < vec.len() ==> items[j] == (#[trigger] vec[j])@,
                    items_rendered(items, i as nat, ledger@) == Ok::<Seq<char>, ErrorView>(inner@),
                decreases vec.len() - i,
            {
                let text = match render(&vec[i], ledger) {
                    Ok(text) => text,
                    Err(e) => {
                        proof {
                            lemma_items_rendered_fails(
                                items,
                                (i + 1) as nat,
                                items.len(),
                                ledger@,
                            );
                        }
                        return Err(e);
                    },
                };
                if i > 0 {
                    inner.append(" ");
                }
                inner.append(text.as_str());
                i += 1;
            }
            let mut out = String::from_str("(");
            out.append(inner.as_str());
            out.append(")");
            Ok(out)
        },
    }
}

} // verus!
