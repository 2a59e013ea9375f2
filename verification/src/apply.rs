//! The answer application engine: turn an answer into the page mutations
//! that realize it, scoped to one question. Choice answers toggle only the
//! inputs whose current selection differs from the desired one, so applying
//! an answer the page already shows produces no toggle at all. Every index
//! and selector is validated against the question first; a bad one rejects
//! the whole answer instead of mutating anything.

use vstd::prelude::*;
use crate::answer::{FillInBlanksAnswerItem, LlmAnswerResult};
use crate::question::{Blank, Choice, DragChoice, DragDropIntoText, DropZone, MatchItem, Question};
use crate::text::str_eq;

verus! {

/// One page mutation.
#[derive(Debug, Clone, PartialEq)]
pub enum PageAction {
    /// Click a radio or checkbox input to flip its selection.
    Toggle { input_name: String, input_value: String },
    /// Set a text input's content and fire its change notifications.
    SetText { input_name: String, value: String },
    /// Set a dropdown's selected value and fire its change notification.
    SetSelect { select_name: String, value: String },
    /// Write code into the editor bound to this field.
    SetCode { input_name: String, code: String },
    /// Set a hidden placement input to a choice number.
    SetHidden { input_name: String, value: usize },
}

/// Why an answer cannot be applied to a question.
#[derive(Clone, Copy, Debug, PartialEq, Eq, Structural)]
pub enum ApplyError {
    /// A choice index lies outside the question's choice list.
    IndexOutOfRange,
    /// The answer's kind does not fit the question's kind.
    VariantMismatch,
    /// The answer names an input, dropdown, zone or choice number that the
    /// question does not have.
    UnknownSelector,
}

/// A page mutation at the level of character sequences.
pub enum ActionModel {
    Toggle { input_name: Seq<char>, input_value: Seq<char> },
    SetText { input_name: Seq<char>, value: Seq<char> },
    SetSelect { select_name: Seq<char>, value: Seq<char> },
    SetCode { input_name: Seq<char>, code: Seq<char> },
    SetHidden { input_name: Seq<char>, value: int },
}

/// The character-sequence content of a page action.
pub open spec fn action_model(a: PageAction) -> ActionModel {
    match a {
        PageAction::Toggle { input_name, input_value } => ActionModel::Toggle {
            input_name: input_name@,
            input_value: input_value@,
        },
        PageAction::SetText { input_name, value } => ActionModel::SetText {
            input_name: input_name@,
            value: value@,
        },
        PageAction::SetSelect { select_name, value } => ActionModel::SetSelect {
            select_name: select_name@,
            value: value@,
        },
        PageAction::SetCode { input_name, code } => ActionModel::SetCode {
            input_name: input_name@,
            code: code@,
        },
        PageAction::SetHidden { input_name, value } => ActionModel::SetHidden {
            input_name: input_name@,
            value: value as int,
        },
    }
}

/// The toggle planned for a single-choice answer: the chosen input, only
/// when the page does not already show it selected.
pub open spec fn spec_single_toggles(cs: Seq<Choice>, idx: int) -> Seq<ActionModel> {
    if cs[idx].selected {
        Seq::empty()
    } else {
        seq![
            ActionModel::Toggle {
                input_name: cs[idx].input_name@,
                input_value: cs[idx].input_value@,
            },
        ]
    }
}

/// The toggles planned for the first `upto` choices of a multi-choice
/// answer: exactly those whose current selection differs from membership
/// in the desired index set.
pub open spec fn spec_multi_toggles(cs: Seq<Choice>, idxs: Seq<usize>, upto: int) -> Seq<
    ActionModel,
>
    decreases upto,
{
    if upto <= 0 {
        Seq::empty()
    } else {
        let i = upto - 1;
        spec_multi_toggles(cs, idxs, i) + (if idxs.contains(i as usize) != cs[i].selected {
            seq![
                ActionModel::Toggle {
                    input_name: cs[i].input_name@,
                    input_value: cs[i].input_value@,
                },
            ]
        } else {
            Seq::empty()
        })
    }
}

/// Whether some matching item owns this dropdown name.
pub open spec fn known_select_name(items: Seq<MatchItem>, name: Seq<char>) -> bool {
    exists|i: int| 0 <= i < items.len() && #[trigger] items[i].select_name@ == name
}

/// Whether some text blank owns this input name.
pub open spec fn known_blank_text_name(blanks: Seq<Blank>, name: Seq<char>) -> bool {
    exists|i: int|
        0 <= i < blanks.len() && #[trigger] blanks[i] is Text && blanks[i]->Text_input_name@
            == name
}

/// Whether some dropdown blank owns this select name.
pub open spec fn known_blank_select_name(blanks: Seq<Blank>, name: Seq<char>) -> bool {
    exists|i: int|
        0 <= i < blanks.len() && #[trigger] blanks[i] is Select && blanks[i]->Select_select_name@
            == name
}

/// Whether some drop zone owns this hidden input name.
pub open spec fn known_zone_name(zones: Seq<DropZone>, name: Seq<char>) -> bool {
    exists|i: int| 0 <= i < zones.len() && #[trigger] zones[i].input_name@ == name
}

/// Whether a placement value is a known choice number or the empty
/// placement zero.
pub open spec fn known_choice_number(choices: Seq<DragChoice>, v: int) -> bool {
    v == 0 || exists|i: int| 0 <= i < choices.len() && #[trigger] choices[i].choice_number == v
}

/// Whether a placement is valid for this question: the zone exists and the
/// value is a known choice number or zero.
pub open spec fn placement_known(dd: DragDropIntoText, p: (String, usize)) -> bool {
    known_zone_name(dd.drop_zones@, p.0@) && known_choice_number(dd.choices@, p.1 as int)
}

/// A fill-in-the-blanks answer item names a blank the question has, of the
/// right kind.
pub open spec fn fill_item_known(blanks: Seq<Blank>, item: FillInBlanksAnswerItem) -> bool {
    match item {
        FillInBlanksAnswerItem::Text { input_name, .. } => known_blank_text_name(
            blanks,
            input_name@,
        ),
        FillInBlanksAnswerItem::Select { select_name, .. } => known_blank_select_name(
            blanks,
            select_name@,
        ),
    }
}

/// The actions of a matching answer, one dropdown set per selection.
pub open spec fn spec_matching_actions(selections: Seq<(String, String)>) -> Seq<ActionModel>
    decreases selections.len(),
{
    if selections.len() == 0 {
        Seq::empty()
    } else {
        spec_matching_actions(selections.drop_last()) + seq![
            ActionModel::SetSelect {
                select_name: selections.last().0@,
                value: selections.last().1@,
            },
        ]
    }
}

/// The action of one fill-in-the-blanks answer item.
pub open spec fn fill_item_action(item: FillInBlanksAnswerItem) -> ActionModel {
    match item {
        FillInBlanksAnswerItem::Text { input_name, answer } => ActionModel::SetText {
            input_name: input_name@,
            value: answer@,
        },
        FillInBlanksAnswerItem::Select { select_name, value } => ActionModel::SetSelect {
            select_name: select_name@,
            value: value@,
        },
    }
}

/// The actions of a fill-in-the-blanks answer, one per item.
pub open spec fn spec_fill_actions(answers: Seq<FillInBlanksAnswerItem>) -> Seq<ActionModel>
    decreases answers.len(),
{
    if answers.len() == 0 {
        Seq::empty()
    } else {
        spec_fill_actions(answers.drop_last()) + seq![fill_item_action(answers.last())]
    }
}

/// The actions of a drag-and-drop answer, one hidden input set per
/// placement.
pub open spec fn spec_drag_actions(placements: Seq<(String, usize)>) -> Seq<ActionModel>
    decreases placements.len(),
{
    if placements.len() == 0 {
        Seq::empty()
    } else {
        spec_drag_actions(placements.drop_last()) + seq![
            ActionModel::SetHidden {
                input_name: placements.last().0@,
                value: placements.last().1 as int,
            },
        ]
    }
}

/// The page mutations that applying `a` to `q` performs, or why the answer
/// is rejected. Choice answers toggle only differing inputs; list answers
/// are rejected whole when any entry names something the question lacks.
pub open spec fn spec_plan(q: Question, a: LlmAnswerResult) -> Result<Seq<ActionModel>, ApplyError> {
    match a {
        LlmAnswerResult::Single { idx, .. } => {
            let cs = q.spec_choices();
            if idx >= cs.len() {
                Err(ApplyError::IndexOutOfRange)
            } else {
                Ok(spec_single_toggles(cs, idx as int))
            }
        },
        LlmAnswerResult::Multi { indices, .. } => {
            let cs = q.spec_choices();
            if exists|i: int| 0 <= i < indices@.len() && #[trigger] indices@[i] >= cs.len() {
                Err(ApplyError::IndexOutOfRange)
            } else {
                Ok(spec_multi_toggles(cs, indices@, cs.len() as int))
            }
        },
        LlmAnswerResult::Text { answer } => {
            if q is ShortAnswer {
                Ok(
                    seq![
                        ActionModel::SetText {
                            input_name: q->ShortAnswer_input_name@,
                            value: answer@,
                        },
                    ],
                )
            } else {
                Err(ApplyError::VariantMismatch)
            }
        },
        LlmAnswerResult::Matching { selections } => {
            let items = if q is Matching {
                q->Matching_items@
            } else {
                Seq::empty()
            };
            if forall|i: int|
                0 <= i < selections@.len() ==> known_select_name(
                    items,
                    #[trigger] selections@[i].0@,
                ) {
                Ok(spec_matching_actions(selections@))
            } else {
                Err(ApplyError::UnknownSelector)
            }
        },
        LlmAnswerResult::FillInBlanks { answers } => {
            if !(q is FillInBlanks) {
                Err(ApplyError::VariantMismatch)
            } else {
                let blanks = q->FillInBlanks_0.blanks@;
                if forall|i: int|
                    0 <= i < answers@.len() ==> fill_item_known(blanks, #[trigger] answers@[i]) {
                    Ok(spec_fill_actions(answers@))
                } else {
                    Err(ApplyError::UnknownSelector)
                }
            }
        },
        LlmAnswerResult::CodeBlock { code } => {
            if q is CodeBlock {
                Ok(
                    seq![
                        ActionModel::SetCode { input_name: q->CodeBlock_input_name@, code: code@ },
                    ],
                )
            } else {
                Err(ApplyError::VariantMismatch)
            }
        },
        LlmAnswerResult::DragDropIntoText { placements } => {
            if !(q is DragDropIntoText) {
                Err(ApplyError::VariantMismatch)
            } else {
                let dd = q->DragDropIntoText_0;
                if forall|i: int|
                    0 <= i < placements@.len() ==> placement_known(dd, #[trigger] placements@[i]) {
                    Ok(spec_drag_actions(placements@))
                } else {
                    Err(ApplyError::UnknownSelector)
                }
            }
        },
    }
}

/// Whether `indices` contains `i`.
fn contains_index(indices: &Vec<usize>, i: usize) -> (r: bool)
    ensures
        r == indices@.contains(i),
{
    let mut j: usize = 0;
    while j < indices.len()
        invariant
            j <= indices@.len(),
            forall|k: int| 0 <= k < j ==> #[trigger] indices@[k] != i,
        decreases indices@.len() - j,
    {
        if indices[j] == i {
            return true;
        }
        j = j + 1;
    }
    proof {
        assert(!indices@.contains(i));
    }
    false
}

/// Whether some matching item owns this dropdown name, by linear search.
fn knows_select_name(items: &[MatchItem], name: &str) -> (r: bool)
    ensures
        r == known_select_name(items@, name@),
{
    let mut j: usize = 0;
    while j < items.len()
        invariant
            j <= items@.len(),
            forall|k: int| 0 <= k < j ==> #[trigger] items@[k].select_name@ != name@,
        decreases items@.len() - j,
    {
        if str_eq(items[j].select_name.as_str(), name) {
            return true;
        }
        j = j + 1;
    }
    false
}

/// Whether some text blank owns this input name, by linear search.
fn knows_blank_text_name(blanks: &Vec<Blank>, name: &str) -> (r: bool)
    ensures
        r == known_blank_text_name(blanks@, name@),
{
    let mut j: usize = 0;
    while j < blanks.len()
        invariant
            j <= blanks@.len(),
            forall|k: int|
                0 <= k < j ==> !(#[trigger] blanks@[k] is Text && blanks@[k]->Text_input_name@
                    == name@),
        decreases blanks@.len() - j,
    {
        match &blanks[j] {
            Blank::Text { input_name, .. } => {
                if str_eq(input_name.as_str(), name) {
                    return true;
                }
            },
            _ => {},
        }
        j = j + 1;
    }
    false
}

/// Whether some dropdown blank owns this select name, by linear search.
fn knows_blank_select_name(blanks: &Vec<Blank>, name: &str) -> (r: bool)
    ensures
        r == known_blank_select_name(blanks@, name@),
{
    let mut j: usize = 0;
    while j < blanks.len()
        invariant
            j <= blanks@.len(),
            forall|k: int|
                0 <= k < j ==> !(#[trigger] blanks@[k] is Select
                    && blanks@[k]->Select_select_name@ == name@),
        decreases blanks@.len() - j,
    {
        match &blanks[j] {
            Blank::Select { select_name, .. } => {
                if str_eq(select_name.as_str(), name) {
                    return true;
                }
            },
            _ => {},
        }
        j = j + 1;
    }
    false
}

/// Whether some drop zone owns this hidden input name, by linear search.
fn knows_zone_name(zones: &Vec<DropZone>, name: &str) -> (r: bool)
    ensures
        r == known_zone_name(zones@, name@),
{
    let mut j: usize = 0;
    while j < zones.len()
        invariant
            j <= zones@.len(),
            forall|k: int| 0 <= k < j ==> #[trigger] zones@[k].input_name@ != name@,
        decreases zones@.len() - j,
    {
        if str_eq(zones[j].input_name.as_str(), name) {
            return true;
        }
        j = j + 1;
    }
    false
}

/// Whether this value is a known choice number or zero, by linear search.
fn knows_choice_number(choices: &Vec<DragChoice>, v: usize) -> (r: bool)
    ensures
        r == known_choice_number(choices@, v as int),
{
    if v == 0 {
        return true;
    }
    let mut j: usize = 0;
    while j < choices.len()
        invariant
            j <= choices@.len(),
            forall|k: int| 0 <= k < j ==> #[trigger] choices@[k].choice_number != v,
        decreases choices@.len() - j,
    {
        if choices[j].choice_number == v {
            return true;
        }
        j = j + 1;
    }
    false
}

/// Plan the toggle of a single-choice answer against the choice list.
fn plan_single(cs: &[Choice], idx: usize) -> (r: Result<Vec<PageAction>, ApplyError>)
    ensures
        match r {
            Ok(v) => (idx as int) < cs@.len() && v@.map_values(|x: PageAction| action_model(x))
                == spec_single_toggles(cs@, idx as int),
            Err(e) => e == ApplyError::IndexOutOfRange && (idx as int) >= cs@.len(),
        },
{
    if idx >= cs.len() {
        return Err(ApplyError::IndexOutOfRange);
    }
    let mut out: Vec<PageAction> = Vec::new();
    if !cs[idx].selected {
        out.push(
            PageAction::Toggle {
                input_name: cs[idx].input_name.clone(),
                input_value: cs[idx].input_value.clone(),
            },
        );
    }
    proof {
        assert(out@.map_values(|x: PageAction| action_model(x)) =~= spec_single_toggles(
            cs@,
            idx as int,
        ));
    }
    Ok(out)
}

/// Plan the toggles of a multi-choice answer against the choice list.
fn plan_multi(cs: &[Choice], indices: &Vec<usize>) -> (r: Result<Vec<PageAction>, ApplyError>)
    ensures
        match r {
            Ok(v) => (forall|i: int|
                0 <= i < indices@.len() ==> #[trigger] indices@[i] < cs@.len())
                && v@.map_values(|x: PageAction| action_model(x)) == spec_multi_toggles(
                cs@,
                indices@,
                cs@.len() as int,
            ),
            Err(e) => e == ApplyError::IndexOutOfRange && (exists|i: int|
                0 <= i < indices@.len() && #[trigger] indices@[i] >= cs@.len()),
        },
{
    let mut v: usize = 0;
    while v < indices.len()
        invariant
            v <= indices@.len(),
            forall|k: int| 0 <= k < v ==> #[trigger] indices@[k] < cs@.len(),
        decreases indices@.len() - v,
    {
        if indices[v] >= cs.len() {
            return Err(ApplyError::IndexOutOfRange);
        }
        v = v + 1;
    }
    let mut out: Vec<PageAction> = Vec::new();
    let mut i: usize = 0;
    while i < cs.len()
        invariant
            i <= cs@.len(),
            out@.map_values(|x: PageAction| action_model(x)) == spec_multi_toggles(
                cs@,
                indices@,
                i as int,
            ),
        decreases cs@.len() - i,
    {
        let want = contains_index(indices, i);
        if want != cs[i].selected {
            out.push(
                PageAction::Toggle {
                    input_name: cs[i].input_name.clone(),
                    input_value: cs[i].input_value.clone(),
                },
            );
        }
        proof {
            assert(out@.map_values(|x: PageAction| action_model(x)) =~= spec_multi_toggles(
                cs@,
                indices@,
                i + 1,
            ));
        }
        i = i + 1;
    }
    Ok(out)
}

/// Plan the dropdown sets of a matching answer against the item list.
fn plan_matching(items: &[MatchItem], selections: &Vec<(String, String)>) -> (r: Result<
    Vec<PageAction>,
    ApplyError,
>)
    ensures
        match r {
            Ok(v) => (forall|i: int|
                0 <= i < selections@.len() ==> known_select_name(
                    items@,
                    #[trigger] selections@[i].0@,
                )) && v@.map_values(|x: PageAction| action_model(x)) == spec_matching_actions(
                selections@,
            ),
            Err(e) => e == ApplyError::UnknownSelector && !(forall|i: int|
                0 <= i < selections@.len() ==> known_select_name(
                    items@,
                    #[trigger] selections@[i].0@,
                )),
        },
{
    let mut out: Vec<PageAction> = Vec::new();
    let mut i: usize = 0;
    while i < selections.len()
        invariant
            i <= selections@.len(),
            forall|k: int|
                0 <= k < i ==> known_select_name(items@, #[trigger] selections@[k].0@),
            out@.map_values(|x: PageAction| action_model(x)) == spec_matching_actions(
                selections@.subrange(0, i as int),
            ),
        decreases selections@.len() - i,
    {
        let ghost step = selections@.subrange(0, i + 1);
        proof {
            assert(step.drop_last() =~= selections@.subrange(0, i as int));
            assert(step.last() == selections@[i as int]);
        }
        if !knows_select_name(items, selections[i].0.as_str()) {
            return Err(ApplyError::UnknownSelector);
        }
        out.push(
            PageAction::SetSelect {
                select_name: selections[i].0.clone(),
                value: selections[i].1.clone(),
            },
        );
        proof {
            assert(out@.map_values(|x: PageAction| action_model(x)) =~= spec_matching_actions(
                step,
            ));
        }
        i = i + 1;
    }
    proof {
        assert(selections@.subrange(0, selections@.len() as int) =~= selections@);
    }
    Ok(out)
}

/// Plan the input and dropdown sets of a fill-in-the-blanks answer against
/// the blank list.
fn plan_fill(blanks: &Vec<Blank>, answers: &Vec<FillInBlanksAnswerItem>) -> (r: Result<
    Vec<PageAction>,
    ApplyError,
>)
    ensures
        match r {
            Ok(v) => (forall|i: int|
                0 <= i < answers@.len() ==> fill_item_known(blanks@, #[trigger] answers@[i]))
                && v@.map_values(|x: PageAction| action_model(x)) == spec_fill_actions(answers@),
            Err(e) => e == ApplyError::UnknownSelector && !(forall|i: int|
                0 <= i < answers@.len() ==> fill_item_known(blanks@, #[trigger] answers@[i])),
        },
{
    let mut out: Vec<PageAction> = Vec::new();
    let mut i: usize = 0;
    while i < answers.len()
        invariant
            i <= answers@.len(),
            forall|k: int| 0 <= k < i ==> fill_item_known(blanks@, #[trigger] answers@[k]),
            out@.map_values(|x: PageAction| action_model(x)) == spec_fill_actions(
                answers@.subrange(0, i as int),
            ),
        decreases answers@.len() - i,
    {
        let ghost step = answers@.subrange(0, i + 1);
        proof {
            assert(step.drop_last() =~= answers@.subrange(0, i as int));
            assert(step.last() == answers@[i as int]);
        }
        match &answers[i] {
            FillInBlanksAnswerItem::Text { input_name, answer } => {
                if !knows_blank_text_name(blanks, input_name.as_str()) {
                    proof {
                        assert(!fill_item_known(blanks@, answers@[i as int]));
                    }
                    return Err(ApplyError::UnknownSelector);
                }
                out.push(
                    PageAction::SetText { input_name: input_name.clone(), value: answer.clone() },
                );
            },
            FillInBlanksAnswerItem::Select { select_name, value } => {
                if !knows_blank_select_name(blanks, select_name.as_str()) {
                    proof {
                        assert(!fill_item_known(blanks@, answers@[i as int]));
                    }
                    return Err(ApplyError::UnknownSelector);
                }
                out.push(
                    PageAction::SetSelect {
                        select_name: select_name.clone(),
                        value: value.clone(),
                    },
                );
            },
        }
        proof {
            assert(fill_item_known(blanks@, answers@[i as int]));
            assert(out@.map_values(|x: PageAction| action_model(x)) =~= spec_fill_actions(step));
        }
        i = i + 1;
    }
    proof {
        assert(answers@.subrange(0, answers@.len() as int) =~= answers@);
    }
    Ok(out)
}

/// Plan the hidden input sets of a drag-and-drop answer against the
/// question's zones and choices.
fn plan_drag(dd: &DragDropIntoText, placements: &Vec<(String, usize)>) -> (r: Result<
    Vec<PageAction>,
    ApplyError,
>)
    ensures
        match r {
            Ok(v) => (forall|i: int|
                0 <= i < placements@.len() ==> placement_known(*dd, #[trigger] placements@[i]))
                && v@.map_values(|x: PageAction| action_model(x)) == spec_drag_actions(
                placements@,
            ),
            Err(e) => e == ApplyError::UnknownSelector && !(forall|i: int|
                0 <= i < placements@.len() ==> placement_known(*dd, #[trigger] placements@[i])),
        },
{
    let mut out: Vec<PageAction> = Vec::new();
    let mut i: usize = 0;
    while i < placements.len()
        invariant
            i <= placements@.len(),
            forall|k: int| 0 <= k < i ==> placement_known(*dd, #[trigger] placements@[k]),
            out@.map_values(|x: PageAction| action_model(x)) == spec_drag_actions(
                placements@.subrange(0, i as int),
            ),
        decreases placements@.len() - i,
    {
        let ghost step = placements@.subrange(0, i + 1);
        proof {
            assert(step.drop_last() =~= placements@.subrange(0, i as int));
            assert(step.last() == placements@[i as int]);
        }
        if !knows_zone_name(&dd.drop_zones, placements[i].0.as_str()) {
            proof {
                assert(!placement_known(*dd, placements@[i as int]));
            }
            return Err(ApplyError::UnknownSelector);
        }
        if !knows_choice_number(&dd.choices, placements[i].1) {
            proof {
                assert(!placement_known(*dd, placements@[i as int]));
            }
            return Err(ApplyError::UnknownSelector);
        }
        out.push(
            PageAction::SetHidden { input_name: placements[i].0.clone(), value: placements[i].1 },
        );
        proof {
            assert(placement_known(*dd, placements@[i as int]));
            assert(out@.map_values(|x: PageAction| action_model(x)) =~= spec_drag_actions(step));
        }
        i = i + 1;
    }
    proof {
        assert(placements@.subrange(0, placements@.len() as int) =~= placements@);
    }
    Ok(out)
}

/// Plan the page mutations that apply `a` to `q`, validating the answer
/// against the question first. An index outside the choice list, an
/// answer kind that does not fit the question, or a selector the question
/// lacks rejects the answer; nothing is truncated or guessed.
pub fn plan_actions(q: &Question, a: &LlmAnswerResult) -> (r: Result<Vec<PageAction>, ApplyError>)
    ensures
        match r {
            Ok(v) => spec_plan(*q, *a) == Ok::<Seq<ActionModel>, ApplyError>(
                v@.map_values(|x: PageAction| action_model(x)),
            ),
            Err(e) => spec_plan(*q, *a) == Err::<Seq<ActionModel>, ApplyError>(e),
        },
{
    match a {
        LlmAnswerResult::Single { idx, .. } => plan_single(q.choices(), *idx),
        LlmAnswerResult::Multi { indices, .. } => plan_multi(q.choices(), indices),
        LlmAnswerResult::Text { answer } => {
            match q.short_answer_input_name() {
                Some(input_name) => {
                    let mut out: Vec<PageAction> = Vec::new();
                    out.push(
                        PageAction::SetText {
                            input_name: input_name.to_owned(),
                            value: answer.clone(),
                        },
                    );
                    proof {
                        assert(out@.map_values(|x: PageAction| action_model(x)) =~= seq![
                            ActionModel::SetText {
                                input_name: q->ShortAnswer_input_name@,
                                value: answer@,
                            },
                        ]);
                    }
                    Ok(out)
                },
                None => Err(ApplyError::VariantMismatch),
            }
        },
        LlmAnswerResult::Matching { selections } => {
            let items = q.match_items();
            proof {
                if *q is Matching {
                    assert(items@ == q->Matching_items@);
                } else {
                    assert(items@ =~= Seq::<MatchItem>::empty());
                }
            }
            plan_matching(items, selections)
        },
        LlmAnswerResult::FillInBlanks { answers } => {
            match q.fill_in_blanks() {
                None => Err(ApplyError::VariantMismatch),
                Some(fill) => plan_fill(&fill.blanks, answers),
            }
        },
        LlmAnswerResult::CodeBlock { code } => {
            match q.code_block_input_name() {
                Some(input_name) => {
                    let mut out: Vec<PageAction> = Vec::new();
                    out.push(
                        PageAction::SetCode {
                            input_name: input_name.to_owned(),
                            code: code.clone(),
                        },
                    );
                    proof {
                        assert(out@.map_values(|x: PageAction| action_model(x)) =~= seq![
                            ActionModel::SetCode {
                                input_name: q->CodeBlock_input_name@,
                                code: code@,
                            },
                        ]);
                    }
                    Ok(out)
                },
                None => Err(ApplyError::VariantMismatch),
            }
        },
        LlmAnswerResult::DragDropIntoText { placements } => {
            match q.drag_drop_into_text() {
                None => Err(ApplyError::VariantMismatch),
                Some(dd) => plan_drag(dd, placements),
            }
        },
    }
}

/// Applying a single-choice answer that the page already shows — the
/// chosen input is selected — plans no action at all: re-applying the same
/// answer toggles nothing.
pub proof fn lemma_single_idempotent(q: Question, idx: usize, text: String)
    requires
        (idx as int) < q.spec_choices().len(),
        q.spec_choices()[idx as int].selected,
    ensures
        spec_plan(q, LlmAnswerResult::Single { idx, text }) == Ok::<Seq<ActionModel>, ApplyError>(
            Seq::empty(),
        ),
{
}

/// The toggles of a multi-choice answer whose desired selections the page
/// already shows are none at all.
proof fn lemma_multi_toggles_empty(cs: Seq<Choice>, idxs: Seq<usize>, upto: int)
    requires
        upto <= cs.len(),
        forall|i: int| 0 <= i < cs.len() ==> #[trigger] cs[i].selected == idxs.contains(i as usize),
    ensures
        spec_multi_toggles(cs, idxs, upto) == Seq::<ActionModel>::empty(),
    decreases upto,
{
    if upto > 0 {
        lemma_multi_toggles_empty(cs, idxs, upto - 1);
        assert(spec_multi_toggles(cs, idxs, upto) =~= Seq::<ActionModel>::empty());
    }
}

/// Applying a multi-choice answer that the page already shows — each
/// choice is selected exactly when the answer wants it — plans no action
/// at all: re-applying the same answer toggles nothing.
pub proof fn lemma_multi_idempotent(q: Question, indices: Vec<usize>, texts: Vec<String>)
    requires
        forall|i: int| 0 <= i < indices@.len() ==> #[trigger] indices@[i] < q.spec_choices().len(),
        forall|i: int|
            0 <= i < q.spec_choices().len() ==> #[trigger] q.spec_choices()[i].selected
                == indices@.contains(i as usize),
    ensures
        spec_plan(q, LlmAnswerResult::Multi { indices, texts }) == Ok::<
            Seq<ActionModel>,
            ApplyError,
        >(Seq::empty()),
{
    lemma_multi_toggles_empty(q.spec_choices(), indices@, q.spec_choices().len() as int);
}

} // verus!
