//! Answers produced by the answer oracle, and the resolution of its raw
//! output against the originating question: indices are bounds-checked,
//! option texts are resolved to form values, and entries that reference
//! nothing in the question are dropped. An answer never references an
//! index or selector that the question does not have.

use vstd::prelude::*;
use vstd::string::*;
use crate::question::{Blank, DragChoice, DragDropIntoText, DropZone, MatchItem, MatchOption};
use crate::text::{dec_digits, digits_string, has_substring, contains_str, str_eq};

verus! {

/// An answer to a question, in terms of the question's own structure.
#[derive(Debug, Clone, PartialEq)]
pub enum LlmAnswerResult {
    /// One selected choice, by 0-based index.
    Single { idx: usize, text: String },
    /// Several selected choices, by 0-based indices.
    Multi { indices: Vec<usize>, texts: Vec<String> },
    /// A free-text answer.
    Text { answer: String },
    /// Matching: pairs of (select name, value to select).
    Matching { selections: Vec<(String, String)> },
    /// Fill-in-the-blanks: one entry per answered blank.
    FillInBlanks { answers: Vec<FillInBlanksAnswerItem> },
    /// Code for an inline code editor.
    CodeBlock { code: String },
    /// Drag-and-drop: pairs of (hidden input name, choice number).
    DragDropIntoText { placements: Vec<(String, usize)> },
}

/// The answer for a single blank of a fill-in-the-blanks question.
#[derive(Debug, Clone, PartialEq)]
pub enum FillInBlanksAnswerItem {
    /// A text input and the text to enter.
    Text { input_name: String, answer: String },
    /// A dropdown and the value to select.
    Select { select_name: String, value: String },
}

/// Why an oracle answer was rejected.
#[derive(Clone, Copy, Debug, PartialEq, Eq, Structural)]
pub enum AnswerError {
    /// A choice number lies outside the question's choice list.
    IndexOutOfRange,
}

/// A fill-in-the-blanks answer at the level of character sequences.
pub enum FillAnswerModel {
    Text { input_name: Seq<char>, answer: Seq<char> },
    Select { select_name: Seq<char>, value: Seq<char> },
}

/// The character-sequence content of a fill-in-the-blanks answer item.
pub open spec fn fill_item_model(x: FillInBlanksAnswerItem) -> FillAnswerModel {
    match x {
        FillInBlanksAnswerItem::Text { input_name, answer } => FillAnswerModel::Text {
            input_name: input_name@,
            answer: answer@,
        },
        FillInBlanksAnswerItem::Select { select_name, value } => FillAnswerModel::Select {
            select_name: select_name@,
            value: value@,
        },
    }
}

/// Resolve a single-choice oracle answer: the oracle numbers choices from
/// one, so number `n` maps to index `n - 1`; any number outside
/// `1..=n_choices` is rejected.
pub fn resolve_single_answer(n_choices: usize, response_number: usize, text: String) -> (r: Result<
    LlmAnswerResult,
    AnswerError,
>)
    ensures
        (1 <= response_number <= n_choices) <==> r is Ok,
        r matches Ok(a) ==> a == (LlmAnswerResult::Single {
            idx: (response_number - 1) as usize,
            text,
        }),
        r matches Err(e) ==> e == AnswerError::IndexOutOfRange,
{
    if response_number == 0 || response_number > n_choices {
        Err(AnswerError::IndexOutOfRange)
    } else {
        Ok(LlmAnswerResult::Single { idx: response_number - 1, text })
    }
}

/// Resolve a multi-choice oracle answer: every number must lie in
/// `1..=n_choices`, and each maps to its 0-based index. One bad number
/// rejects the whole answer; nothing is truncated.
pub fn resolve_multi_answer(
    n_choices: usize,
    response_numbers: &Vec<usize>,
    texts: Vec<String>,
) -> (r: Result<LlmAnswerResult, AnswerError>)
    ensures
        (forall|i: int|
            0 <= i < response_numbers@.len() ==> 1 <= #[trigger] response_numbers@[i]
                <= n_choices) <==> r is Ok,
        r matches Ok(a) ==> {
            &&& a is Multi
            &&& a->Multi_indices@.len() == response_numbers@.len()
            &&& (forall|i: int|
                0 <= i < response_numbers@.len() ==> #[trigger] a->Multi_indices@[i]
                    == response_numbers@[i] - 1)
            &&& (forall|i: int|
                0 <= i < a->Multi_indices@.len() ==> #[trigger] a->Multi_indices@[i] < n_choices)
            &&& a->Multi_texts == texts
        },
        r matches Err(e) ==> e == AnswerError::IndexOutOfRange,
{
    let mut indices: Vec<usize> = Vec::new();
    let mut i: usize = 0;
    while i < response_numbers.len()
        invariant
            i <= response_numbers@.len(),
            indices@.len() == i,
            forall|k: int|
                0 <= k < i ==> 1 <= #[trigger] response_numbers@[k] <= n_choices,
            forall|k: int|
                0 <= k < i ==> #[trigger] indices@[k] == response_numbers@[k] - 1,
        decreases response_numbers@.len() - i,
    {
        let n = response_numbers[i];
        if n == 0 || n > n_choices {
            return Err(AnswerError::IndexOutOfRange);
        }
        indices.push(n - 1);
        i = i + 1;
    }
    Ok(LlmAnswerResult::Multi { indices, texts })
}

/// The first option whose display text equals `text`.
pub open spec fn find_option_from(options: Seq<MatchOption>, text: Seq<char>, i: int) -> Option<
    int,
>
    decreases options.len() - i,
{
    if i < 0 || i >= options.len() {
        None
    } else if options[i].text@ == text {
        Some(i)
    } else {
        find_option_from(options, text, i + 1)
    }
}

/// A first matching option pins `find_option_from` down.
proof fn lemma_find_option_unique(options: Seq<MatchOption>, text: Seq<char>, i: int, k: int)
    requires
        0 <= i <= k <= options.len(),
        forall|j: int| i <= j < k ==> #[trigger] options[j].text@ != text,
        k < options.len() ==> options[k].text@ == text,
    ensures
        find_option_from(options, text, i) == (if k == options.len() {
            None::<int>
        } else {
            Some(k)
        }),
    decreases options.len() - i,
{
    if i < k {
        lemma_find_option_unique(options, text, i + 1, k);
    }
}

/// The first option whose display text equals `text`, by linear search.
fn find_option_by_text(options: &Vec<MatchOption>, text: &str) -> (r: Option<usize>)
    ensures
        match r {
            Some(i) => i < options@.len() && find_option_from(options@, text@, 0) == Some(
                i as int,
            ),
            None => find_option_from(options@, text@, 0) is None,
        },
{
    let mut i: usize = 0;
    while i < options.len()
        invariant
            i <= options@.len(),
            forall|j: int| 0 <= j < i ==> #[trigger] options@[j].text@ != text@,
        decreases options@.len() - i,
    {
        if str_eq(options[i].text.as_str(), text) {
            proof {
                lemma_find_option_unique(options@, text@, 0, i as int);
            }
            return Some(i);
        }
        i = i + 1;
    }
    proof {
        lemma_find_option_unique(options@, text@, 0, options@.len() as int);
    }
    None
}

/// What one raw blank entry `(blank number, answer text)` resolves to:
/// nothing when the 1-based number lies outside the blank list or names an
/// unknown dropdown option, else the one item for that blank.
pub open spec fn spec_fill_one(blanks: Seq<Blank>, num: int, ans: Seq<char>) -> Seq<
    FillAnswerModel,
> {
    let idx = if num >= 1 {
        num - 1
    } else {
        0
    };
    if idx >= blanks.len() {
        Seq::empty()
    } else {
        match blanks[idx] {
            Blank::Text { input_name, .. } => seq![
                FillAnswerModel::Text { input_name: input_name@, answer: ans },
            ],
            Blank::Select { select_name, options, .. } => match find_option_from(
                options@,
                ans,
                0,
            ) {
                Some(oi) => seq![
                    FillAnswerModel::Select {
                        select_name: select_name@,
                        value: options@[oi].value@,
                    },
                ],
                None => Seq::empty(),
            },
        }
    }
}

/// What a list of raw blank entries resolves to, in order.
pub open spec fn spec_fill_items(blanks: Seq<Blank>, raw: Seq<(usize, String)>) -> Seq<
    FillAnswerModel,
>
    decreases raw.len(),
{
    if raw.len() == 0 {
        Seq::empty()
    } else {
        spec_fill_items(blanks, raw.drop_last()) + spec_fill_one(
            blanks,
            raw.last().0 as int,
            raw.last().1@,
        )
    }
}

/// Resolve raw fill-in-the-blanks oracle output `(blank number, answer)`
/// against the question's blanks. Out-of-range blank numbers and unknown
/// dropdown options are dropped; text blanks take the answer as typed, and
/// dropdown blanks take the value of the option whose text was named.
pub fn resolve_fill_in_blanks(blanks: &Vec<Blank>, raw: &Vec<(usize, String)>) -> (r: Vec<
    FillInBlanksAnswerItem,
>)
    ensures
        r@.map_values(|x: FillInBlanksAnswerItem| fill_item_model(x)) == spec_fill_items(
            blanks@,
            raw@,
        ),
{
    let mut out: Vec<FillInBlanksAnswerItem> = Vec::new();
    let mut i: usize = 0;
    while i < raw.len()
        invariant
            i <= raw@.len(),
            out@.map_values(|x: FillInBlanksAnswerItem| fill_item_model(x)) == spec_fill_items(
                blanks@,
                raw@.subrange(0, i as int),
            ),
        decreases raw@.len() - i,
    {
        let ghost prefix = raw@.subrange(0, i as int);
        let ghost step = raw@.subrange(0, i + 1);
        proof {
            assert(step.drop_last() =~= prefix);
            assert(step.last() == raw@[i as int]);
        }
        let num: usize = raw[i].0;
        let idx: usize = if num >= 1 {
            num - 1
        } else {
            0
        };
        if idx < blanks.len() {
            match &blanks[idx] {
                Blank::Text { input_name, .. } => {
                    out.push(
                        FillInBlanksAnswerItem::Text {
                            input_name: input_name.clone(),
                            answer: raw[i].1.clone(),
                        },
                    );
                },
                Blank::Select { select_name, options, .. } => {
                    match find_option_by_text(options, raw[i].1.as_str()) {
                        Some(oi) => {
                            out.push(
                                FillInBlanksAnswerItem::Select {
                                    select_name: select_name.clone(),
                                    value: options[oi].value.clone(),
                                },
                            );
                        },
                        None => {},
                    }
                },
            }
        }
        proof {
            assert(out@.map_values(|x: FillInBlanksAnswerItem| fill_item_model(x))
                =~= spec_fill_items(blanks@, step));
        }
        i = i + 1;
    }
    proof {
        assert(raw@.subrange(0, raw@.len() as int) =~= raw@);
    }
    out
}

/// The slot label shown for the `k`-th matching item with an empty prompt.
pub open spec fn slot_label(k: int) -> Seq<char> {
    seq!['['] + dec_digits(k) + seq![']']
}

/// Whether an oracle prompt names the `k`-th matching item (1-based): an
/// item with an empty prompt is named by its slot label or bare number;
/// one with a prompt is named when either prompt contains the other.
pub open spec fn prompt_matches(item: MatchItem, prompt: Seq<char>, k: int) -> bool {
    if item.prompt@.len() == 0 {
        prompt == slot_label(k) || prompt == dec_digits(k)
    } else {
        has_substring(item.prompt@, prompt) || has_substring(prompt, item.prompt@)
    }
}

/// The first matching item that an oracle prompt names.
pub open spec fn find_item_from(items: Seq<MatchItem>, prompt: Seq<char>, i: int) -> Option<int>
    decreases items.len() - i,
{
    if i < 0 || i >= items.len() {
        None
    } else if prompt_matches(items[i], prompt, i + 1) {
        Some(i)
    } else {
        find_item_from(items, prompt, i + 1)
    }
}

/// A first matching item pins `find_item_from` down.
proof fn lemma_find_item_unique(items: Seq<MatchItem>, prompt: Seq<char>, i: int, k: int)
    requires
        0 <= i <= k <= items.len(),
        forall|j: int| i <= j < k ==> !prompt_matches(#[trigger] items[j], prompt, j + 1),
        k < items.len() ==> prompt_matches(items[k], prompt, k + 1),
    ensures
        find_item_from(items, prompt, i) == (if k == items.len() {
            None::<int>
        } else {
            Some(k)
        }),
    decreases items.len() - i,
{
    if i < k {
        lemma_find_item_unique(items, prompt, i + 1, k);
    }
}

/// Whether an oracle prompt names this matching item (1-based position
/// `k`).
fn prompt_matches_exec(item: &MatchItem, prompt: &str, k: usize) -> (r: bool)
    requires
        k >= 1,
    ensures
        r == prompt_matches(*item, prompt@, k as int),
{
    proof {
        reveal_strlit("[");
        reveal_strlit("]");
    }
    if item.prompt.as_str().unicode_len() == 0 {
        let digits = digits_string(k);
        let mut label = String::new();
        label.append("[");
        label.append(digits.as_str());
        label.append("]");
        proof {
            assert(label@ =~= slot_label(k as int));
        }
        str_eq(prompt, label.as_str()) || str_eq(prompt, digits.as_str())
    } else {
        contains_str(item.prompt.as_str(), prompt) || contains_str(prompt, item.prompt.as_str())
    }
}

/// The first item this prompt names, by linear search.
fn find_matching_item(items: &Vec<MatchItem>, prompt: &str) -> (r: Option<usize>)
    ensures
        match r {
            Some(i) => i < items@.len() && find_item_from(items@, prompt@, 0) == Some(i as int),
            None => find_item_from(items@, prompt@, 0) is None,
        },
{
    let mut i: usize = 0;
    while i < items.len()
        invariant
            i <= items@.len(),
            forall|j: int| 0 <= j < i ==> !prompt_matches(#[trigger] items@[j], prompt@, j + 1),
        decreases items@.len() - i,
    {
        if prompt_matches_exec(&items[i], prompt, i + 1) {
            proof {
                lemma_find_item_unique(items@, prompt@, 0, i as int);
            }
            return Some(i);
        }
        i = i + 1;
    }
    proof {
        lemma_find_item_unique(items@, prompt@, 0, items@.len() as int);
    }
    None
}

/// What one raw matching pair `(prompt, answer)` resolves to: nothing when
/// no item is named or the named item lacks an option with that text, else
/// the one `(select name, option value)` selection.
pub open spec fn spec_match_one(items: Seq<MatchItem>, prompt: Seq<char>, ans: Seq<char>) -> Seq<
    (Seq<char>, Seq<char>),
> {
    match find_item_from(items, prompt, 0) {
        None => Seq::empty(),
        Some(i) => match find_option_from(items[i].options@, ans, 0) {
            Some(oi) => seq![(items[i].select_name@, items[i].options@[oi].value@)],
            None => Seq::empty(),
        },
    }
}

/// What a list of raw matching pairs resolves to, in order.
pub open spec fn spec_selections(items: Seq<MatchItem>, raw: Seq<(String, String)>) -> Seq<
    (Seq<char>, Seq<char>),
>
    decreases raw.len(),
{
    if raw.len() == 0 {
        Seq::empty()
    } else {
        spec_selections(items, raw.drop_last()) + spec_match_one(
            items,
            raw.last().0@,
            raw.last().1@,
        )
    }
}

/// Resolve raw matching oracle output `(prompt, answer)` against the
/// question's items: each pair selects, in the first item its prompt
/// names, the value of the option whose text equals the answer. Pairs
/// naming no item or no option are dropped.
pub fn resolve_matching(items: &Vec<MatchItem>, raw: &Vec<(String, String)>) -> (r: Vec<
    (String, String),
>)
    ensures
        r@.map_values(|p: (String, String)| (p.0@, p.1@)) == spec_selections(items@, raw@),
{
    let mut out: Vec<(String, String)> = Vec::new();
    let mut i: usize = 0;
    while i < raw.len()
        invariant
            i <= raw@.len(),
            out@.map_values(|p: (String, String)| (p.0@, p.1@)) == spec_selections(
                items@,
                raw@.subrange(0, i as int),
            ),
        decreases raw@.len() - i,
    {
        let ghost prefix = raw@.subrange(0, i as int);
        let ghost step = raw@.subrange(0, i + 1);
        proof {
            assert(step.drop_last() =~= prefix);
            assert(step.last() == raw@[i as int]);
        }
        match find_matching_item(items, raw[i].0.as_str()) {
            Some(item_idx) => {
                let item = &items[item_idx];
                match find_option_by_text(&item.options, raw[i].1.as_str()) {
                    Some(oi) => {
                        out.push((item.select_name.clone(), item.options[oi].value.clone()));
                    },
                    None => {},
                }
            },
            None => {},
        }
        proof {
            assert(out@.map_values(|p: (String, String)| (p.0@, p.1@)) =~= spec_selections(
                items@,
                step,
            ));
        }
        i = i + 1;
    }
    proof {
        assert(raw@.subrange(0, raw@.len() as int) =~= raw@);
    }
    out
}

/// The first drop zone with this place number.
pub open spec fn find_zone_from(zones: Seq<DropZone>, n: int, i: int) -> Option<int>
    decreases zones.len() - i,
{
    if i < 0 || i >= zones.len() {
        None
    } else if zones[i].place_number == n {
        Some(i)
    } else {
        find_zone_from(zones, n, i + 1)
    }
}

/// A first matching zone pins `find_zone_from` down.
proof fn lemma_find_zone_unique(zones: Seq<DropZone>, n: int, i: int, k: int)
    requires
        0 <= i <= k <= zones.len(),
        forall|j: int| i <= j < k ==> #[trigger] zones[j].place_number != n,
        k < zones.len() ==> zones[k].place_number == n,
    ensures
        find_zone_from(zones, n, i) == (if k == zones.len() {
            None::<int>
        } else {
            Some(k)
        }),
    decreases zones.len() - i,
{
    if i < k {
        lemma_find_zone_unique(zones, n, i + 1, k);
    }
}

/// The first drag choice with this label text.
pub open spec fn find_drag_choice_from(choices: Seq<DragChoice>, text: Seq<char>, i: int) -> Option<
    int,
>
    decreases choices.len() - i,
{
    if i < 0 || i >= choices.len() {
        None
    } else if choices[i].text@ == text {
        Some(i)
    } else {
        find_drag_choice_from(choices, text, i + 1)
    }
}

/// A first matching drag choice pins `find_drag_choice_from` down.
proof fn lemma_find_drag_choice_unique(choices: Seq<DragChoice>, text: Seq<char>, i: int, k: int)
    requires
        0 <= i <= k <= choices.len(),
        forall|j: int| i <= j < k ==> #[trigger] choices[j].text@ != text,
        k < choices.len() ==> choices[k].text@ == text,
    ensures
        find_drag_choice_from(choices, text, i) == (if k == choices.len() {
            None::<int>
        } else {
            Some(k)
        }),
    decreases choices.len() - i,
{
    if i < k {
        lemma_find_drag_choice_unique(choices, text, i + 1, k);
    }
}

/// The first zone with this place number, by linear search.
fn find_zone(zones: &Vec<DropZone>, n: usize) -> (r: Option<usize>)
    ensures
        match r {
            Some(i) => i < zones@.len() && find_zone_from(zones@, n as int, 0) == Some(i as int),
            None => find_zone_from(zones@, n as int, 0) is None,
        },
{
    let mut i: usize = 0;
    while i < zones.len()
        invariant
            i <= zones@.len(),
            forall|j: int| 0 <= j < i ==> #[trigger] zones@[j].place_number != n,
        decreases zones@.len() - i,
    {
        if zones[i].place_number == n {
            proof {
                lemma_find_zone_unique(zones@, n as int, 0, i as int);
            }
            return Some(i);
        }
        i = i + 1;
    }
    proof {
        lemma_find_zone_unique(zones@, n as int, 0, zones@.len() as int);
    }
    None
}

/// The first drag choice with this label text, by linear search.
fn find_drag_choice(choices: &Vec<DragChoice>, text: &str) -> (r: Option<usize>)
    ensures
        match r {
            Some(i) => i < choices@.len() && find_drag_choice_from(choices@, text@, 0) == Some(
                i as int,
            ),
            None => find_drag_choice_from(choices@, text@, 0) is None,
        },
{
    let mut i: usize = 0;
    while i < choices.len()
        invariant
            i <= choices@.len(),
            forall|j: int| 0 <= j < i ==> #[trigger] choices@[j].text@ != text@,
        decreases choices@.len() - i,
    {
        if str_eq(choices[i].text.as_str(), text) {
            proof {
                lemma_find_drag_choice_unique(choices@, text@, 0, i as int);
            }
            return Some(i);
        }
        i = i + 1;
    }
    proof {
        lemma_find_drag_choice_unique(choices@, text@, 0, choices@.len() as int);
    }
    None
}

/// What one raw placement `(place number, choice text)` resolves to:
/// nothing when no zone has that place number or no choice has that text,
/// else the one `(input name, choice number)` pair.
pub open spec fn spec_drag_one(dd: DragDropIntoText, n: int, text: Seq<char>) -> Seq<
    (Seq<char>, int),
> {
    match find_zone_from(dd.drop_zones@, n, 0) {
        None => Seq::empty(),
        Some(z) => match find_drag_choice_from(dd.choices@, text, 0) {
            Some(c) => seq![
                (dd.drop_zones@[z].input_name@, dd.choices@[c].choice_number as int),
            ],
            None => Seq::empty(),
        },
    }
}

/// What a list of raw placements resolves to, in order.
pub open spec fn spec_placements(dd: DragDropIntoText, raw: Seq<(usize, String)>) -> Seq<
    (Seq<char>, int),
>
    decreases raw.len(),
{
    if raw.len() == 0 {
        Seq::empty()
    } else {
        spec_placements(dd, raw.drop_last()) + spec_drag_one(
            dd,
            raw.last().0 as int,
            raw.last().1@,
        )
    }
}

/// Resolve raw drag-and-drop oracle output `(place number, choice text)`
/// against the question: each entry places, into the zone with that place
/// number, the number of the choice with that text. Entries naming no
/// zone or no choice are dropped.
pub fn resolve_drag_drop(dd: &DragDropIntoText, raw: &Vec<(usize, String)>) -> (r: Vec<
    (String, usize),
>)
    ensures
        r@.map_values(|p: (String, usize)| (p.0@, p.1 as int)) == spec_placements(*dd, raw@),
{
    let mut out: Vec<(String, usize)> = Vec::new();
    let mut i: usize = 0;
    while i < raw.len()
        invariant
            i <= raw@.len(),
            out@.map_values(|p: (String, usize)| (p.0@, p.1 as int)) == spec_placements(
                *dd,
                raw@.subrange(0, i as int),
            ),
        decreases raw@.len() - i,
    {
        let ghost prefix = raw@.subrange(0, i as int);
        let ghost step = raw@.subrange(0, i + 1);
        proof {
            assert(step.drop_last() =~= prefix);
            assert(step.last() == raw@[i as int]);
        }
        let n: usize = raw[i].0;
        match find_zone(&dd.drop_zones, n) {
            Some(z) => {
                match find_drag_choice(&dd.choices, raw[i].1.as_str()) {
                    Some(c) => {
                        out.push(
                            (dd.drop_zones[z].input_name.clone(), dd.choices[c].choice_number),
                        );
                    },
                    None => {},
                }
            },
            None => {},
        }
        proof {
            assert(out@.map_values(|p: (String, usize)| (p.0@, p.1 as int)) =~= spec_placements(
                *dd,
                step,
            ));
        }
        i = i + 1;
    }
    proof {
        assert(raw@.subrange(0, raw@.len() as int) =~= raw@);
    }
    out
}

} // verus!
