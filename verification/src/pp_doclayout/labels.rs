use vstd::prelude::*;

verus! {

/// Number of layout classes predicted by the PP-DocLayoutV3 checkpoint.
pub const PP_DOCLAYOUT_V3_CLASS_COUNT: usize = 25;

/// Official snake_case label names, indexed by class id.
pub const PP_DOCLAYOUT_V3_LABELS: [&'static str; 25] = [
    "abstract",
    "algorithm",
    "aside_text",
    "chart",
    "content",
    "display_formula",
    "doc_title",
    "figure_title",
    "footer",
    "footer_image",
    "footnote",
    "formula_number",
    "header",
    "header_image",
    "image",
    "inline_formula",
    "number",
    "paragraph_title",
    "reference",
    "reference_content",
    "seal",
    "table",
    "text",
    "vertical_text",
    "vision_footnote",
];

/// One of the layout classes of PP-DocLayoutV3, in class-id order.
#[derive(Debug, Clone, Copy, PartialEq, Eq, Hash, Structural)]
pub enum PPDocLayoutV3Label {
    Abstract,
    Algorithm,
    AsideText,
    Chart,
    Content,
    DisplayFormula,
    DocTitle,
    FigureTitle,
    Footer,
    FooterImage,
    Footnote,
    FormulaNumber,
    Header,
    HeaderImage,
    Image,
    InlineFormula,
    Number,
    ParagraphTitle,
    Reference,
    ReferenceContent,
    Seal,
    Table,
    Text,
    VerticalText,
    VisionFootnote,
}

/// A class id that names no PP-DocLayoutV3 label.
#[derive(Debug, Clone, Copy, PartialEq, Eq, Structural)]
pub struct PPDocLayoutV3LabelError {
    pub class_id: usize,
}

/// The label with class id `id`, for ids below the class count.
pub open spec fn label_for_class_id(id: int) -> Option<PPDocLayoutV3Label> {
    if id == 0 {
        Some(PPDocLayoutV3Label::Abstract)
    } else if id == 1 {
        Some(PPDocLayoutV3Label::Algorithm)
    } else if id == 2 {
        Some(PPDocLayoutV3Label::AsideText)
    } else if id == 3 {
        Some(PPDocLayoutV3Label::Chart)
    } else if id == 4 {
        Some(PPDocLayoutV3Label::Content)
    } else if id == 5 {
        Some(PPDocLayoutV3Label::DisplayFormula)
    } else if id == 6 {
        Some(PPDocLayoutV3Label::DocTitle)
    } else if id == 7 {
        Some(PPDocLayoutV3Label::FigureTitle)
    } else if id == 8 {
        Some(PPDocLayoutV3Label::Footer)
    } else if id == 9 {
        Some(PPDocLayoutV3Label::FooterImage)
    } else if id == 10 {
        Some(PPDocLayoutV3Label::Footnote)
    } else if id == 11 {
        Some(PPDocLayoutV3Label::FormulaNumber)
    } else if id == 12 {
        Some(PPDocLayoutV3Label::Header)
    } else if id == 13 {
        Some(PPDocLayoutV3Label::HeaderImage)
    } else if id == 14 {
        Some(PPDocLayoutV3Label::Image)
    } else if id == 15 {
        Some(PPDocLayoutV3Label::InlineFormula)
    } else if id == 16 {
        Some(PPDocLayoutV3Label::Number)
    } else if id == 17 {
        Some(PPDocLayoutV3Label::ParagraphTitle)
    } else if id == 18 {
        Some(PPDocLayoutV3Label::Reference)
    } else if id == 19 {
        Some(PPDocLayoutV3Label::ReferenceContent)
    } else if id == 20 {
        Some(PPDocLayoutV3Label::Seal)
    } else if id == 21 {
        Some(PPDocLayoutV3Label::Table)
    } else if id == 22 {
        Some(PPDocLayoutV3Label::Text)
    } else if id == 23 {
        Some(PPDocLayoutV3Label::VerticalText)
    } else if id == 24 {
        Some(PPDocLayoutV3Label::VisionFootnote)
    } else {
        None
    }
}

impl PPDocLayoutV3Label {
    /// Class id of the label in the checkpoint's class dimension.
    pub open spec fn spec_class_id(self) -> nat {
        match self {
            PPDocLayoutV3Label::Abstract => 0,
            PPDocLayoutV3Label::Algorithm => 1,
            PPDocLayoutV3Label::AsideText => 2,
            PPDocLayoutV3Label::Chart => 3,
            PPDocLayoutV3Label::Content => 4,
            PPDocLayoutV3Label::DisplayFormula => 5,
            PPDocLayoutV3Label::DocTitle => 6,
            PPDocLayoutV3Label::FigureTitle => 7,
            PPDocLayoutV3Label::Footer => 8,
            PPDocLayoutV3Label::FooterImage => 9,
            PPDocLayoutV3Label::Footnote => 10,
            PPDocLayoutV3Label::FormulaNumber => 11,
            PPDocLayoutV3Label::Header => 12,
            PPDocLayoutV3Label::HeaderImage => 13,
            PPDocLayoutV3Label::Image => 14,
            PPDocLayoutV3Label::InlineFormula => 15,
            PPDocLayoutV3Label::Number => 16,
            PPDocLayoutV3Label::ParagraphTitle => 17,
            PPDocLayoutV3Label::Reference => 18,
            PPDocLayoutV3Label::ReferenceContent => 19,
            PPDocLayoutV3Label::Seal => 20,
            PPDocLayoutV3Label::Table => 21,
            PPDocLayoutV3Label::Text => 22,
            PPDocLayoutV3Label::VerticalText => 23,
            PPDocLayoutV3Label::VisionFootnote => 24,
        }
    }

    /// RGBA colour used to outline boxes of this label.
    pub open spec fn spec_debug_color_rgba(self) -> [u8; 4] {
        match self {
            PPDocLayoutV3Label::Abstract => [0x5E, 0x35, 0xB1, 255],
            PPDocLayoutV3Label::Algorithm => [0x39, 0x49, 0xAB, 255],
            PPDocLayoutV3Label::AsideText => [0x8D, 0x6E, 0x63, 255],
            PPDocLayoutV3Label::Chart => [0xFB, 0x8C, 0x00, 255],
            PPDocLayoutV3Label::Content => [0x6D, 0x4C, 0x41, 255],
            PPDocLayoutV3Label::DisplayFormula => [0xD8, 0x1B, 0x60, 255],
            PPDocLayoutV3Label::DocTitle => [0xE5, 0x39, 0x35, 255],
            PPDocLayoutV3Label::FigureTitle => [0xF4, 0x51, 0x1E, 255],
            PPDocLayoutV3Label::Footer => [0x75, 0x75, 0x75, 255],
            PPDocLayoutV3Label::FooterImage => [0x54, 0x6E, 0x7A, 255],
            PPDocLayoutV3Label::Footnote => [0x9E, 0x9D, 0x24, 255],
            PPDocLayoutV3Label::FormulaNumber => [0xAD, 0x14, 0x57, 255],
            PPDocLayoutV3Label::Header => [0x61, 0x61, 0x61, 255],
            PPDocLayoutV3Label::HeaderImage => [0x45, 0x5A, 0x64, 255],
            PPDocLayoutV3Label::Image => [0x1E, 0x88, 0xE5, 255],
            PPDocLayoutV3Label::InlineFormula => [0xC2, 0x18, 0x5B, 255],
            PPDocLayoutV3Label::Number => [0x00, 0xAC, 0xC1, 255],
            PPDocLayoutV3Label::ParagraphTitle => [0x8E, 0x24, 0xAA, 255],
            PPDocLayoutV3Label::Reference => [0x7C, 0xB3, 0x42, 255],
            PPDocLayoutV3Label::ReferenceContent => [0x55, 0x8B, 0x2F, 255],
            PPDocLayoutV3Label::Seal => [0xFD, 0xD8, 0x35, 255],
            PPDocLayoutV3Label::Table => [0x00, 0x96, 0x88, 255],
            PPDocLayoutV3Label::Text => [0x43, 0xA0, 0x47, 255],
            PPDocLayoutV3Label::VerticalText => [0x2E, 0x7D, 0x32, 255],
            PPDocLayoutV3Label::VisionFootnote => [0x03, 0x9B, 0xE5, 255],
        }
    }

    /// Number of layout classes.
    pub fn class_count() -> (count: usize)
        ensures
            count == PP_DOCLAYOUT_V3_CLASS_COUNT,
    {
        PP_DOCLAYOUT_V3_CLASS_COUNT
    }

    /// Class id of this label.
    pub fn class_id(self) -> (id: usize)
        ensures
            id == self.spec_class_id(),
    {
        match self {
            PPDocLayoutV3Label::Abstract => 0,
            PPDocLayoutV3Label::Algorithm => 1,
            PPDocLayoutV3Label::AsideText => 2,
            PPDocLayoutV3Label::Chart => 3,
            PPDocLayoutV3Label::Content => 4,
            PPDocLayoutV3Label::DisplayFormula => 5,
            PPDocLayoutV3Label::DocTitle => 6,
            PPDocLayoutV3Label::FigureTitle => 7,
            PPDocLayoutV3Label::Footer => 8,
            PPDocLayoutV3Label::FooterImage => 9,
            PPDocLayoutV3Label::Footnote => 10,
            PPDocLayoutV3Label::FormulaNumber => 11,
            PPDocLayoutV3Label::Header => 12,
            PPDocLayoutV3Label::HeaderImage => 13,
            PPDocLayoutV3Label::Image => 14,
            PPDocLayoutV3Label::InlineFormula => 15,
            PPDocLayoutV3Label::Number => 16,
            PPDocLayoutV3Label::ParagraphTitle => 17,
            PPDocLayoutV3Label::Reference => 18,
            PPDocLayoutV3Label::ReferenceContent => 19,
            PPDocLayoutV3Label::Seal => 20,
            PPDocLayoutV3Label::Table => 21,
            PPDocLayoutV3Label::Text => 22,
            PPDocLayoutV3Label::VerticalText => 23,
            PPDocLayoutV3Label::VisionFootnote => 24,
        }
    }

    /// Converts a class id into its label; ids at or above the class count are refused.
    pub fn from_class_id(id: usize) -> (result: Result<Self, PPDocLayoutV3LabelError>)
        ensures
            match result {
                Ok(label) => label_for_class_id(id as int) == Some(label),
                Err(error) => label_for_class_id(id as int) is None && error.class_id == id,
            },
    {
        match id {
            0 => Ok(PPDocLayoutV3Label::Abstract),
            1 => Ok(PPDocLayoutV3Label::Algorithm),
            2 => Ok(PPDocLayoutV3Label::AsideText),
            3 => Ok(PPDocLayoutV3Label::Chart),
            4 => Ok(PPDocLayoutV3Label::Content),
            5 => Ok(PPDocLayoutV3Label::DisplayFormula),
            6 => Ok(PPDocLayoutV3Label::DocTitle),
            7 => Ok(PPDocLayoutV3Label::FigureTitle),
            8 => Ok(PPDocLayoutV3Label::Footer),
            9 => Ok(PPDocLayoutV3Label::FooterImage),
            10 => Ok(PPDocLayoutV3Label::Footnote),
            11 => Ok(PPDocLayoutV3Label::FormulaNumber),
            12 => Ok(PPDocLayoutV3Label::Header),
            13 => Ok(PPDocLayoutV3Label::HeaderImage),
            14 => Ok(PPDocLayoutV3Label::Image),
            15 => Ok(PPDocLayoutV3Label::InlineFormula),
            16 => Ok(PPDocLayoutV3Label::Number),
            17 => Ok(PPDocLayoutV3Label::ParagraphTitle),
            18 => Ok(PPDocLayoutV3Label::Reference),
            19 => Ok(PPDocLayoutV3Label::ReferenceContent),
            20 => Ok(PPDocLayoutV3Label::Seal),
            21 => Ok(PPDocLayoutV3Label::Table),
            22 => Ok(PPDocLayoutV3Label::Text),
            23 => Ok(PPDocLayoutV3Label::VerticalText),
            24 => Ok(PPDocLayoutV3Label::VisionFootnote),
            _ => Err(PPDocLayoutV3LabelError { class_id: id }),
        }
    }

    /// The label of a class id below the class count.
    pub fn from_known_class_id(id: usize) -> (label: Self)
        requires
            id < PP_DOCLAYOUT_V3_CLASS_COUNT,
        ensures
            label_for_class_id(id as int) == Some(label),
    {
        match id {
            0 => PPDocLayoutV3Label::Abstract,
            1 => PPDocLayoutV3Label::Algorithm,
            2 => PPDocLayoutV3Label::AsideText,
            3 => PPDocLayoutV3Label::Chart,
            4 => PPDocLayoutV3Label::Content,
            5 => PPDocLayoutV3Label::DisplayFormula,
            6 => PPDocLayoutV3Label::DocTitle,
            7 => PPDocLayoutV3Label::FigureTitle,
            8 => PPDocLayoutV3Label::Footer,
            9 => PPDocLayoutV3Label::FooterImage,
            10 => PPDocLayoutV3Label::Footnote,
            11 => PPDocLayoutV3Label::FormulaNumber,
            12 => PPDocLayoutV3Label::Header,
            13 => PPDocLayoutV3Label::HeaderImage,
            14 => PPDocLayoutV3Label::Image,
            15 => PPDocLayoutV3Label::InlineFormula,
            16 => PPDocLayoutV3Label::Number,
            17 => PPDocLayoutV3Label::ParagraphTitle,
            18 => PPDocLayoutV3Label::Reference,
            19 => PPDocLayoutV3Label::ReferenceContent,
            20 => PPDocLayoutV3Label::Seal,
            21 => PPDocLayoutV3Label::Table,
            22 => PPDocLayoutV3Label::Text,
            23 => PPDocLayoutV3Label::VerticalText,
            _ => PPDocLayoutV3Label::VisionFootnote,
        }
    }

    /// Official snake_case name of the label.
    pub fn as_str(self) -> (name: &'static str)
        ensures
            name@ == PP_DOCLAYOUT_V3_LABELS[self.spec_class_id() as int]@,
    {
        let name = match self {
            PPDocLayoutV3Label::Abstract => PP_DOCLAYOUT_V3_LABELS[0],
            PPDocLayoutV3Label::Algorithm => PP_DOCLAYOUT_V3_LABELS[1],
            PPDocLayoutV3Label::AsideText => PP_DOCLAYOUT_V3_LABELS[2],
            PPDocLayoutV3Label::Chart => PP_DOCLAYOUT_V3_LABELS[3],
            PPDocLayoutV3Label::Content => PP_DOCLAYOUT_V3_LABELS[4],
            PPDocLayoutV3Label::DisplayFormula => PP_DOCLAYOUT_V3_LABELS[5],
            PPDocLayoutV3Label::DocTitle => PP_DOCLAYOUT_V3_LABELS[6],
            PPDocLayoutV3Label::FigureTitle => PP_DOCLAYOUT_V3_LABELS[7],
            PPDocLayoutV3Label::Footer => PP_DOCLAYOUT_V3_LABELS[8],
            PPDocLayoutV3Label::FooterImage => PP_DOCLAYOUT_V3_LABELS[9],
            PPDocLayoutV3Label::Footnote => PP_DOCLAYOUT_V3_LABELS[10],
            PPDocLayoutV3Label::FormulaNumber => PP_DOCLAYOUT_V3_LABELS[11],
            PPDocLayoutV3Label::Header => PP_DOCLAYOUT_V3_LABELS[12],
            PPDocLayoutV3Label::HeaderImage => PP_DOCLAYOUT_V3_LABELS[13],
            PPDocLayoutV3Label::Image => PP_DOCLAYOUT_V3_LABELS[14],
            PPDocLayoutV3Label::InlineFormula => PP_DOCLAYOUT_V3_LABELS[15],
            PPDocLayoutV3Label::Number => PP_DOCLAYOUT_V3_LABELS[16],
            PPDocLayoutV3Label::ParagraphTitle => PP_DOCLAYOUT_V3_LABELS[17],
            PPDocLayoutV3Label::Reference => PP_DOCLAYOUT_V3_LABELS[18],
            PPDocLayoutV3Label::ReferenceContent => PP_DOCLAYOUT_V3_LABELS[19],
            PPDocLayoutV3Label::Seal => PP_DOCLAYOUT_V3_LABELS[20],
            PPDocLayoutV3Label::Table => PP_DOCLAYOUT_V3_LABELS[21],
            PPDocLayoutV3Label::Text => PP_DOCLAYOUT_V3_LABELS[22],
            PPDocLayoutV3Label::VerticalText => PP_DOCLAYOUT_V3_LABELS[23],
            PPDocLayoutV3Label::VisionFootnote => PP_DOCLAYOUT_V3_LABELS[24],
        };
        name
    }

    /// RGBA colour used to outline boxes of this label.
    pub fn debug_color_rgba(self) -> (color: [u8; 4])
        ensures
            color == self.spec_debug_color_rgba(),
    {
        match self {
            PPDocLayoutV3Label::Abstract => [0x5E, 0x35, 0xB1, 255],
            PPDocLayoutV3Label::Algorithm => [0x39, 0x49, 0xAB, 255],
            PPDocLayoutV3Label::AsideText => [0x8D, 0x6E, 0x63, 255],
            PPDocLayoutV3Label::Chart => [0xFB, 0x8C, 0x00, 255],
            PPDocLayoutV3Label::Content => [0x6D, 0x4C, 0x41, 255],
            PPDocLayoutV3Label::DisplayFormula => [0xD8, 0x1B, 0x60, 255],
            PPDocLayoutV3Label::DocTitle => [0xE5, 0x39, 0x35, 255],
            PPDocLayoutV3Label::FigureTitle => [0xF4, 0x51, 0x1E, 255],
            PPDocLayoutV3Label::Footer => [0x75, 0x75, 0x75, 255],
            PPDocLayoutV3Label::FooterImage => [0x54, 0x6E, 0x7A, 255],
            PPDocLayoutV3Label::Footnote => [0x9E, 0x9D, 0x24, 255],
            PPDocLayoutV3Label::FormulaNumber => [0xAD, 0x14, 0x57, 255],
            PPDocLayoutV3Label::Header => [0x61, 0x61, 0x61, 255],
            PPDocLayoutV3Label::HeaderImage => [0x45, 0x5A, 0x64, 255],
            PPDocLayoutV3Label::Image => [0x1E, 0x88, 0xE5, 255],
            PPDocLayoutV3Label::InlineFormula => [0xC2, 0x18, 0x5B, 255],
            PPDocLayoutV3Label::Number => [0x00, 0xAC, 0xC1, 255],
            PPDocLayoutV3Label::ParagraphTitle => [0x8E, 0x24, 0xAA, 255],
            PPDocLayoutV3Label::Reference => [0x7C, 0xB3, 0x42, 255],
            PPDocLayoutV3Label::ReferenceContent => [0x55, 0x8B, 0x2F, 255],
            PPDocLayoutV3Label::Seal => [0xFD, 0xD8, 0x35, 255],
            PPDocLayoutV3Label::Table => [0x00, 0x96, 0x88, 255],
            PPDocLayoutV3Label::Text => [0x43, 0xA0, 0x47, 255],
            PPDocLayoutV3Label::VerticalText => [0x2E, 0x7D, 0x32, 255],
            PPDocLayoutV3Label::VisionFootnote => [0x03, 0x9B, 0xE5, 255],
        }
    }
}

impl TryFrom<usize> for PPDocLayoutV3Label {
    type Error = PPDocLayoutV3LabelError;

    /// Converts a class id into its label; see [`PPDocLayoutV3Label::from_class_id`].
    fn try_from(id: usize) -> Result<Self, Self::Error> {
        Self::from_class_id(id)
    }
}

impl vstd::std_specs::convert::TryFromSpecImpl<usize> for PPDocLayoutV3Label {
    open spec fn obeys_try_from_spec() -> bool {
        true
    }

    open spec fn try_from_spec(id: usize) -> Result<Self, PPDocLayoutV3LabelError> {
        match label_for_class_id(id as int) {
            Some(label) => Ok(label),
            None => Err(PPDocLayoutV3LabelError { class_id: id }),
        }
    }
}

/// Every label is found again from its class id, and every class id below the
/// class count names exactly the label whose class id it is.
pub proof fn lemma_label_class_id_round_trip(label: PPDocLayoutV3Label, id: int)
    ensures
        label_for_class_id(label.spec_class_id() as int) == Some(label),
        label.spec_class_id() < PP_DOCLAYOUT_V3_CLASS_COUNT,
        0 <= id < PP_DOCLAYOUT_V3_CLASS_COUNT <==> label_for_class_id(id) is Some,
        label_for_class_id(id) matches Some(l) ==> l.spec_class_id() == id,
{
}

} // verus!
