//! The question data model: every kind of quiz item the session can meet,
//! with per-variant accessors that answer `None` or empty for a mismatched
//! variant rather than guessing.

use vstd::prelude::*;

verus! {

/// An image attached to a question or a choice.
#[derive(Debug, Clone, PartialEq)]
pub struct Image {
    /// The URL of the image.
    pub url: String,
    /// Alt text if available.
    pub alt: Option<String>,
}

/// One selectable option of a single- or multi-choice question.
#[derive(Debug, Clone, PartialEq)]
pub struct Choice {
    /// The input element's name attribute (for form submission).
    pub input_name: String,
    /// The input element's value attribute.
    pub input_value: String,
    /// The text label for this choice.
    pub text: String,
    /// Whether this choice is currently selected on the page.
    pub selected: bool,
    /// Images in this choice, if any.
    pub images: Vec<Image>,
}

/// A file that a code submission must provide.
#[derive(Debug, Clone, PartialEq)]
pub struct RequiredFile {
    /// The filename, e.g. "main.c".
    pub name: String,
    /// Template content if the page provides one.
    pub content: String,
}

/// An option of a matching dropdown.
#[derive(Debug, Clone, PartialEq)]
pub struct MatchOption {
    /// The value attribute.
    pub value: String,
    /// The display text.
    pub text: String,
}

/// A single dropdown of a matching question.
#[derive(Debug, Clone, PartialEq)]
pub struct MatchItem {
    /// The prompt text for this item.
    pub prompt: String,
    /// The select element's name attribute.
    pub select_name: String,
    /// Available options in the dropdown.
    pub options: Vec<MatchOption>,
    /// Currently selected value ("0" when none is selected).
    pub selected_value: String,
}

/// A drop zone of a drag-and-drop-into-text question.
#[derive(Debug, Clone, PartialEq)]
pub struct DropZone {
    /// The hidden input name.
    pub input_name: String,
    /// Which place number this is (1-indexed).
    pub place_number: usize,
    /// Currently selected choice (0 when none).
    pub current_choice: usize,
}

/// A draggable choice of a drag-and-drop-into-text question.
#[derive(Debug, Clone, PartialEq)]
pub struct DragChoice {
    /// The choice number (1-indexed, used as the value of hidden inputs).
    pub choice_number: usize,
    /// The text label.
    pub text: String,
}

/// A drag-and-drop-into-text question.
#[derive(Debug, Clone, PartialEq)]
pub struct DragDropIntoText {
    /// The question prompt with drop zones indicated.
    pub question_text: String,
    /// Available choices to drag.
    pub choices: Vec<DragChoice>,
    /// Drop zones where choices can be placed.
    pub drop_zones: Vec<DropZone>,
    /// Images in the question.
    pub images: Vec<Image>,
}

/// A blank (input field) within a fill-in-the-blanks question.
#[derive(Debug, Clone, PartialEq)]
pub enum Blank {
    /// A free-text input field.
    Text {
        /// The input element's name attribute.
        input_name: String,
        /// Current value, if any.
        current_value: String,
    },
    /// A dropdown select.
    Select {
        /// The select element's name attribute.
        select_name: String,
        /// Available options.
        options: Vec<MatchOption>,
        /// Currently selected value.
        selected_value: String,
    },
}

/// A segment of the running text of a fill-in-the-blanks question.
#[derive(Debug, Clone, PartialEq)]
pub enum FillSegment {
    /// Plain text.
    Text(String),
    /// A blank, by its 0-based index into the blank list.
    Blank(usize),
}

/// A fill-in-the-blanks question: ordered segments plus the blanks they
/// reference.
#[derive(Debug, Clone, PartialEq)]
pub struct FillInBlanks {
    /// The question prompt text.
    pub question_text: String,
    /// Segments of text and blanks in order.
    pub segments: Vec<FillSegment>,
    /// All blanks, referenced by index from the segments.
    pub blanks: Vec<Blank>,
    /// Images in the question.
    pub images: Vec<Image>,
}

/// A quiz question of any supported kind.
#[derive(Debug, Clone, PartialEq)]
pub enum Question {
    /// Single choice question with radio buttons.
    SingleChoice { question_text: String, choices: Vec<Choice>, images: Vec<Image> },
    /// Multiple choice question with checkboxes.
    MultiChoice { question_text: String, choices: Vec<Choice>, images: Vec<Image> },
    /// Free text response question.
    ShortAnswer { question_text: String, input_name: String, current_answer: String, images: Vec<Image> },
    /// Matching question with one dropdown per item.
    Matching { question_text: String, items: Vec<MatchItem>, images: Vec<Image> },
    /// Code submission page (virtual programming lab).
    CodeSubmission { description: String, required_files: Vec<RequiredFile>, module_id: String, images: Vec<Image> },
    /// Fill-in-the-blanks question.
    FillInBlanks(FillInBlanks),
    /// Drag-and-drop into text question.
    DragDropIntoText(DragDropIntoText),
    /// Inline code editor question.
    CodeBlock { question_text: String, input_name: String, language: String, current_code: String, images: Vec<Image> },
}

impl Question {
    /// The prompt text of the question, whatever its kind.
    pub open spec fn spec_question_text(&self) -> Seq<char> {
        match self {
            Question::SingleChoice { question_text, .. } => question_text@,
            Question::MultiChoice { question_text, .. } => question_text@,
            Question::ShortAnswer { question_text, .. } => question_text@,
            Question::Matching { question_text, .. } => question_text@,
            Question::CodeBlock { question_text, .. } => question_text@,
            Question::CodeSubmission { description, .. } => description@,
            Question::FillInBlanks(fill) => fill.question_text@,
            Question::DragDropIntoText(ddwtos) => ddwtos.question_text@,
        }
    }

    /// The choices of a choice question; empty for every other kind.
    pub open spec fn spec_choices(&self) -> Seq<Choice> {
        match self {
            Question::SingleChoice { choices, .. } => choices@,
            Question::MultiChoice { choices, .. } => choices@,
            _ => Seq::empty(),
        }
    }

    /// The images of the question text (not of its choices).
    pub open spec fn spec_images(&self) -> Seq<Image> {
        match self {
            Question::SingleChoice { images, .. } => images@,
            Question::MultiChoice { images, .. } => images@,
            Question::ShortAnswer { images, .. } => images@,
            Question::Matching { images, .. } => images@,
            Question::CodeSubmission { images, .. } => images@,
            Question::CodeBlock { images, .. } => images@,
            Question::FillInBlanks(fill) => fill.images@,
            Question::DragDropIntoText(ddwtos) => ddwtos.images@,
        }
    }

    /// Extract question text for display.
    pub fn question_text(&self) -> (r: &str)
        ensures
            r@ == self.spec_question_text(),
    {
        match self {
            Question::SingleChoice { question_text, .. } => question_text.as_str(),
            Question::MultiChoice { question_text, .. } => question_text.as_str(),
            Question::ShortAnswer { question_text, .. } => question_text.as_str(),
            Question::Matching { question_text, .. } => question_text.as_str(),
            Question::CodeBlock { question_text, .. } => question_text.as_str(),
            Question::CodeSubmission { description, .. } => description.as_str(),
            Question::FillInBlanks(fill) => fill.question_text.as_str(),
            Question::DragDropIntoText(ddwtos) => ddwtos.question_text.as_str(),
        }
    }

    /// Choices of a choice question; empty for the other kinds.
    pub fn choices(&self) -> (r: &[Choice])
        ensures
            r@ == self.spec_choices(),
    {
        match self {
            Question::SingleChoice { choices, .. } => choices.as_slice(),
            Question::MultiChoice { choices, .. } => choices.as_slice(),
            _ => {
                let r: &[Choice] = &[];
                assert(r@ =~= Seq::<Choice>::empty());
                r
            },
        }
    }

    /// Images in the question text (not in choices).
    pub fn images(&self) -> (r: &[Image])
        ensures
            r@ == self.spec_images(),
    {
        match self {
            Question::SingleChoice { images, .. } => images.as_slice(),
            Question::MultiChoice { images, .. } => images.as_slice(),
            Question::ShortAnswer { images, .. } => images.as_slice(),
            Question::Matching { images, .. } => images.as_slice(),
            Question::CodeSubmission { images, .. } => images.as_slice(),
            Question::CodeBlock { images, .. } => images.as_slice(),
            Question::FillInBlanks(fill) => fill.images.as_slice(),
            Question::DragDropIntoText(ddwtos) => ddwtos.images.as_slice(),
        }
    }

    /// True for a multi-choice (checkbox) question.
    pub fn is_multi(&self) -> (r: bool)
        ensures
            r == self is MultiChoice,
    {
        matches!(self, Question::MultiChoice { .. })
    }

    /// True for a code submission question.
    pub fn is_code_submission(&self) -> (r: bool)
        ensures
            r == self is CodeSubmission,
    {
        matches!(self, Question::CodeSubmission { .. })
    }

    /// True for a short answer (free text) question.
    pub fn is_short_answer(&self) -> (r: bool)
        ensures
            r == self is ShortAnswer,
    {
        matches!(self, Question::ShortAnswer { .. })
    }

    /// The input name of a short answer question.
    pub fn short_answer_input_name(&self) -> (r: Option<&str>)
        ensures
            match r {
                Some(name) => self is ShortAnswer && name@ == self->ShortAnswer_input_name@,
                None => !(self is ShortAnswer),
            },
    {
        match self {
            Question::ShortAnswer { input_name, .. } => Some(input_name.as_str()),
            _ => None,
        }
    }

    /// True for a matching question.
    pub fn is_matching(&self) -> (r: bool)
        ensures
            r == self is Matching,
    {
        matches!(self, Question::Matching { .. })
    }

    /// Match items of a matching question; empty for the other kinds.
    pub fn match_items(&self) -> (r: &[MatchItem])
        ensures
            self is Matching ==> r@ == self->Matching_items@,
            !(self is Matching) ==> r@ == Seq::<MatchItem>::empty(),
    {
        match self {
            Question::Matching { items, .. } => items.as_slice(),
            _ => {
                let r: &[MatchItem] = &[];
                assert(r@ =~= Seq::<MatchItem>::empty());
                r
            },
        }
    }

    /// Required files of a code submission; empty for the other kinds.
    pub fn required_files(&self) -> (r: &[RequiredFile])
        ensures
            self is CodeSubmission ==> r@ == self->CodeSubmission_required_files@,
            !(self is CodeSubmission) ==> r@ == Seq::<RequiredFile>::empty(),
    {
        match self {
            Question::CodeSubmission { required_files, .. } => required_files.as_slice(),
            _ => {
                let r: &[RequiredFile] = &[];
                assert(r@ =~= Seq::<RequiredFile>::empty());
                r
            },
        }
    }

    /// Course module ID of a code submission.
    pub fn module_id(&self) -> (r: Option<&str>)
        ensures
            match r {
                Some(id) => self is CodeSubmission && id@ == self->CodeSubmission_module_id@,
                None => !(self is CodeSubmission),
            },
    {
        match self {
            Question::CodeSubmission { module_id, .. } => Some(module_id.as_str()),
            _ => None,
        }
    }

    /// True for a fill-in-the-blanks question.
    pub fn is_fill_in_blanks(&self) -> (r: bool)
        ensures
            r == self is FillInBlanks,
    {
        matches!(self, Question::FillInBlanks { .. })
    }

    /// The fill-in-the-blanks data of such a question.
    pub fn fill_in_blanks(&self) -> (r: Option<&FillInBlanks>)
        ensures
            match r {
                Some(fill) => self is FillInBlanks && *fill == self->FillInBlanks_0,
                None => !(self is FillInBlanks),
            },
    {
        match self {
            Question::FillInBlanks(fill) => Some(fill),
            _ => None,
        }
    }

    /// True for an inline code editor question.
    pub fn is_code_block(&self) -> (r: bool)
        ensures
            r == self is CodeBlock,
    {
        matches!(self, Question::CodeBlock { .. })
    }

    /// The input name of an inline code editor question.
    pub fn code_block_input_name(&self) -> (r: Option<&str>)
        ensures
            match r {
                Some(name) => self is CodeBlock && name@ == self->CodeBlock_input_name@,
                None => !(self is CodeBlock),
            },
    {
        match self {
            Question::CodeBlock { input_name, .. } => Some(input_name.as_str()),
            _ => None,
        }
    }

    /// The language of an inline code editor question.
    pub fn code_block_language(&self) -> (r: Option<&str>)
        ensures
            match r {
                Some(lang) => self is CodeBlock && lang@ == self->CodeBlock_language@,
                None => !(self is CodeBlock),
            },
    {
        match self {
            Question::CodeBlock { language, .. } => Some(language.as_str()),
            _ => None,
        }
    }

    /// True for a drag-and-drop-into-text question.
    pub fn is_drag_drop_into_text(&self) -> (r: bool)
        ensures
            r == self is DragDropIntoText,
    {
        matches!(self, Question::DragDropIntoText { .. })
    }

    /// The drag-and-drop data of such a question.
    pub fn drag_drop_into_text(&self) -> (r: Option<&DragDropIntoText>)
        ensures
            match r {
                Some(ddwtos) => self is DragDropIntoText && *ddwtos == self->DragDropIntoText_0,
                None => !(self is DragDropIntoText),
            },
    {
        match self {
            Question::DragDropIntoText(ddwtos) => Some(ddwtos),
            _ => None,
        }
    }
}

} // verus!
