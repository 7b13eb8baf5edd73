//! The main story: ten chapters (Empire of Cats, Into the Future, Cats of
//! the Cosmos, three each, with an unused slot), each with 49 stages, their
//! clear counts, treasures and how far the chapter has been cleared.

use vstd::prelude::*;
use crate::stream::{Codec, Readable, Reader, StreamResult, Writable, Writer};
use crate::game_version::{IntErrorKind, parse_u8, spec_parse_u8};
use crate::text::{ascii_chars, ascii_string, lemma_str_bytes_ascii, str_bytes};
use vstd::utf8::encode_utf8;

verus! {

pub const TOTAL_STORY_CHAPTERS: usize = 10;

pub const TOTAL_CLEAR_TIME_STAGES: usize = 51;

pub const TOTAL_STORY_STAGES: usize = 49;

/// Progress through the main story.
#[derive(Debug, Copy, Clone)]
pub struct StoryChapters {
    pub selected_stages: [i32; TOTAL_STORY_CHAPTERS],
    pub chapter_progress: [i32; TOTAL_STORY_CHAPTERS],
    pub clear_times: [[i32; TOTAL_CLEAR_TIME_STAGES]; TOTAL_STORY_CHAPTERS],
    pub treasures: [[i32; TOTAL_STORY_STAGES]; TOTAL_STORY_CHAPTERS],
}

/// Which of the three chapters of a part.
#[derive(Debug, Clone, Copy, PartialEq, Eq, Structural, Hash)]
pub enum InnerChapterType {
    First,
    Second,
    Third,
}

impl Default for InnerChapterType {
    fn default() -> (t: Self)
        ensures
            t == InnerChapterType::First,
    {
        InnerChapterType::First
    }
}

pub open spec fn inner_index(t: InnerChapterType) -> int {
    match t {
        InnerChapterType::First => 0,
        InnerChapterType::Second => 1,
        InnerChapterType::Third => 2,
    }
}

/// Whether the UTF-8 bytes of a string are the given ASCII bytes.
fn bytes_equal(b: &[u8], expected: &[u8]) -> (r: bool)
    ensures
        r == (b@ == expected@),
{
    if b.len() != expected.len() {
        return false;
    }
    let mut i: usize = 0;
    while i < b.len()
        invariant
            b@.len() == expected@.len(),
            i <= b@.len(),
            forall|j: int| 0 <= j < i ==> b@[j] == expected@[j],
        decreases b.len() - i,
    {
        if b[i] != expected[i] {
            return false;
        }
        i = i + 1;
    }
    assert(b@ =~= expected@);
    true
}

pub open spec fn first_bytes() -> Seq<u8> {
    seq![0x66u8, 0x69, 0x72, 0x73, 0x74]
}

pub open spec fn second_bytes() -> Seq<u8> {
    seq![0x73u8, 0x65, 0x63, 0x6f, 0x6e, 0x64]
}

pub open spec fn third_bytes() -> Seq<u8> {
    seq![0x74u8, 0x68, 0x69, 0x72, 0x64]
}

/// The chapter a word names: "first", "second" or "third".
pub open spec fn spec_parse_inner(s: Seq<char>) -> Option<InnerChapterType> {
    if s == ascii_chars(first_bytes()) {
        Some(InnerChapterType::First)
    } else if s == ascii_chars(second_bytes()) {
        Some(InnerChapterType::Second)
    } else if s == ascii_chars(third_bytes()) {
        Some(InnerChapterType::Third)
    } else {
        None
    }
}

impl InnerChapterType {
    /// Reads "first", "second" or "third"; anything else is an error.
    pub fn from_str(s: &str) -> (res: Result<InnerChapterType, String>)
        ensures
            match res {
                Ok(t) => spec_parse_inner(s@) == Some(t),
                Err(_) => spec_parse_inner(s@) is None,
            },
    {
        let b = str_bytes(s);
        let first: Vec<u8> = vec![0x66, 0x69, 0x72, 0x73, 0x74];
        let second: Vec<u8> = vec![0x73, 0x65, 0x63, 0x6f, 0x6e, 0x64];
        let third: Vec<u8> = vec![0x74, 0x68, 0x69, 0x72, 0x64];
        assert(first@ =~= first_bytes());
        assert(second@ =~= second_bytes());
        assert(third@ =~= third_bytes());
        proof {
            lemma_str_bytes_ascii(s@, first_bytes());
            lemma_str_bytes_ascii(s@, second_bytes());
            lemma_str_bytes_ascii(s@, third_bytes());
        }
        if bytes_equal(b, first.as_slice()) {
            Ok(InnerChapterType::First)
        } else if bytes_equal(b, second.as_slice()) {
            Ok(InnerChapterType::Second)
        } else if bytes_equal(b, third.as_slice()) {
            Ok(InnerChapterType::Third)
        } else {
            Err("invalid inner chapter type".to_string())
        }
    }

    /// The place of the chapter within its part: 0, 1 or 2.
    pub fn index(self) -> (i: usize)
        ensures
            i == inner_index(self),
    {
        match self {
            InnerChapterType::First => 0,
            InnerChapterType::Second => 1,
            InnerChapterType::Third => 2,
        }
    }
}

impl From<InnerChapterType> for usize {
    fn from(value: InnerChapterType) -> (i: usize) {
        value.index()
    }
}

impl vstd::std_specs::convert::FromSpecImpl<InnerChapterType> for usize {
    open spec fn obeys_from_spec() -> bool {
        true
    }

    open spec fn from_spec(v: InnerChapterType) -> usize {
        inner_index(v) as usize
    }
}

/// A chapter of the main story.
#[derive(Debug, Clone, Copy, PartialEq, Eq, Structural, Hash)]
pub enum StoryChapterType {
    Eoc(InnerChapterType),
    Itf(InnerChapterType),
    Cotc(InnerChapterType),
}

/// A part of the main story.
#[derive(Debug, Clone, Copy, PartialEq, Eq, Structural, Hash)]
pub enum StoryChapterTypeOuter {
    Eoc,
    Itf,
    Cotc,
}

impl Default for StoryChapterTypeOuter {
    fn default() -> (t: Self)
        ensures
            t == StoryChapterTypeOuter::Eoc,
    {
        StoryChapterTypeOuter::Eoc
    }
}

pub open spec fn eoc_bytes() -> Seq<u8> {
    seq![0x65u8, 0x6f, 0x63]
}

pub open spec fn itf_bytes() -> Seq<u8> {
    seq![0x69u8, 0x74, 0x66]
}

pub open spec fn cotc_bytes() -> Seq<u8> {
    seq![0x63u8, 0x6f, 0x74, 0x63]
}

/// The part a word names: "eoc", "itf" or "cotc".
pub open spec fn spec_parse_outer(s: Seq<char>) -> Option<StoryChapterTypeOuter> {
    if s == ascii_chars(eoc_bytes()) {
        Some(StoryChapterTypeOuter::Eoc)
    } else if s == ascii_chars(itf_bytes()) {
        Some(StoryChapterTypeOuter::Itf)
    } else if s == ascii_chars(cotc_bytes()) {
        Some(StoryChapterTypeOuter::Cotc)
    } else {
        None
    }
}

/// The chapter of a part.
pub open spec fn spec_into_main(outer: StoryChapterTypeOuter, inner: InnerChapterType) -> StoryChapterType {
    match outer {
        StoryChapterTypeOuter::Eoc => StoryChapterType::Eoc(inner),
        StoryChapterTypeOuter::Itf => StoryChapterType::Itf(inner),
        StoryChapterTypeOuter::Cotc => StoryChapterType::Cotc(inner),
    }
}

impl StoryChapterTypeOuter {
    /// Reads "eoc", "itf" or "cotc"; anything else is an error.
    pub fn from_str(s: &str) -> (res: Result<StoryChapterTypeOuter, String>)
        ensures
            match res {
                Ok(t) => spec_parse_outer(s@) == Some(t),
                Err(_) => spec_parse_outer(s@) is None,
            },
    {
        let b = str_bytes(s);
        let eoc: Vec<u8> = vec![0x65, 0x6f, 0x63];
        let itf: Vec<u8> = vec![0x69, 0x74, 0x66];
        let cotc: Vec<u8> = vec![0x63, 0x6f, 0x74, 0x63];
        assert(eoc@ =~= eoc_bytes());
        assert(itf@ =~= itf_bytes());
        assert(cotc@ =~= cotc_bytes());
        proof {
            lemma_str_bytes_ascii(s@, eoc_bytes());
            lemma_str_bytes_ascii(s@, itf_bytes());
            lemma_str_bytes_ascii(s@, cotc_bytes());
        }
        if bytes_equal(b, eoc.as_slice()) {
            Ok(StoryChapterTypeOuter::Eoc)
        } else if bytes_equal(b, itf.as_slice()) {
            Ok(StoryChapterTypeOuter::Itf)
        } else if bytes_equal(b, cotc.as_slice()) {
            Ok(StoryChapterTypeOuter::Cotc)
        } else {
            Err("invalid story chapter type".to_string())
        }
    }

    pub fn into_main(self, inner: InnerChapterType) -> (c: StoryChapterType)
        ensures
            c == spec_into_main(self, inner),
    {
        match self {
            StoryChapterTypeOuter::Eoc => StoryChapterType::Eoc(inner),
            StoryChapterTypeOuter::Itf => StoryChapterType::Itf(inner),
            StoryChapterTypeOuter::Cotc => StoryChapterType::Cotc(inner),
        }
    }
}

impl Default for StoryChapterType {
    fn default() -> (t: Self)
        ensures
            t == StoryChapterType::Eoc(InnerChapterType::First),
    {
        StoryChapterType::Eoc(InnerChapterType::First)
    }
}

/// The chapters in the order players number them from 1.
pub open spec fn chapter_by_number(i: int) -> Option<StoryChapterType> {
    if i == 0 {
        Some(StoryChapterType::Eoc(InnerChapterType::First))
    } else if i == 1 {
        Some(StoryChapterType::Eoc(InnerChapterType::Second))
    } else if i == 2 {
        Some(StoryChapterType::Eoc(InnerChapterType::Third))
    } else if i == 3 {
        Some(StoryChapterType::Itf(InnerChapterType::First))
    } else if i == 4 {
        Some(StoryChapterType::Itf(InnerChapterType::Second))
    } else if i == 5 {
        Some(StoryChapterType::Itf(InnerChapterType::Third))
    } else if i == 6 {
        Some(StoryChapterType::Cotc(InnerChapterType::First))
    } else if i == 7 {
        Some(StoryChapterType::Cotc(InnerChapterType::Second))
    } else if i == 8 {
        Some(StoryChapterType::Cotc(InnerChapterType::Third))
    } else {
        None
    }
}

/// Where a part's chapters start in the save; slot 3 is unused.
pub open spec fn base_index(c: StoryChapterType) -> int {
    match c {
        StoryChapterType::Eoc(_) => 0,
        StoryChapterType::Itf(_) => 4,
        StoryChapterType::Cotc(_) => 7,
    }
}

pub open spec fn local_index(c: StoryChapterType) -> int {
    match c {
        StoryChapterType::Eoc(t) => inner_index(t),
        StoryChapterType::Itf(t) => inner_index(t),
        StoryChapterType::Cotc(t) => inner_index(t),
    }
}

/// The slot of a chapter in the save.
pub open spec fn chapter_index(c: StoryChapterType) -> int {
    base_index(c) + local_index(c)
}

impl StoryChapterType {
    /// The nine chapters in order.
    pub fn all() -> (a: [StoryChapterType; 9])
        ensures
            forall|i: int| 0 <= i < 9 ==> chapter_by_number(i) == Some(#[trigger] a@[i]),
    {
        [
            StoryChapterType::Eoc(InnerChapterType::First),
            StoryChapterType::Eoc(InnerChapterType::Second),
            StoryChapterType::Eoc(InnerChapterType::Third),
            StoryChapterType::Itf(InnerChapterType::First),
            StoryChapterType::Itf(InnerChapterType::Second),
            StoryChapterType::Itf(InnerChapterType::Third),
            StoryChapterType::Cotc(InnerChapterType::First),
            StoryChapterType::Cotc(InnerChapterType::Second),
            StoryChapterType::Cotc(InnerChapterType::Third),
        ]
    }

    /// The chapter with the given number, counting from 0 in story order.
    pub fn from_usize_human(i: usize) -> (c: Option<StoryChapterType>)
        ensures
            c == chapter_by_number(i as int),
    {
        match i {
            0 => Some(StoryChapterType::Eoc(InnerChapterType::First)),
            1 => Some(StoryChapterType::Eoc(InnerChapterType::Second)),
            2 => Some(StoryChapterType::Eoc(InnerChapterType::Third)),
            3 => Some(StoryChapterType::Itf(InnerChapterType::First)),
            4 => Some(StoryChapterType::Itf(InnerChapterType::Second)),
            5 => Some(StoryChapterType::Itf(InnerChapterType::Third)),
            6 => Some(StoryChapterType::Cotc(InnerChapterType::First)),
            7 => Some(StoryChapterType::Cotc(InnerChapterType::Second)),
            8 => Some(StoryChapterType::Cotc(InnerChapterType::Third)),
            _ => None,
        }
    }

    fn into_base_chapter_index(self) -> (i: usize)
        ensures
            i == base_index(self),
    {
        match self {
            StoryChapterType::Eoc(_) => 0,
            StoryChapterType::Itf(_) => 4,
            StoryChapterType::Cotc(_) => 7,
        }
    }

    fn into_local_chapter_index(self) -> (i: usize)
        ensures
            i == local_index(self),
    {
        match self {
            StoryChapterType::Eoc(t) => t.index(),
            StoryChapterType::Itf(t) => t.index(),
            StoryChapterType::Cotc(t) => t.index(),
        }
    }

    fn into_chapter_index(self) -> (i: usize)
        ensures
            i == chapter_index(self),
            i < TOTAL_STORY_CHAPTERS,
    {
        self.into_base_chapter_index() + self.into_local_chapter_index()
    }
}

/// Every chapter has a slot of its own among the ten.
pub proof fn lemma_chapter_index(a: StoryChapterType, b: StoryChapterType)
    ensures
        0 <= chapter_index(a) < 10,
        chapter_index(a) != 3,
        chapter_index(a) == chapter_index(b) ==> a == b,
{
}

/// A stage of a chapter, below 49.
#[derive(Debug, Copy, Clone, PartialEq, Eq, Structural, Hash)]
pub struct StageId(u8);

impl StageId {
    #[verifier::type_invariant]
    spec fn inv(self) -> bool {
        self.0 < 49
    }

    /// The stage number, from 0.
    pub closed spec fn id(self) -> u8 {
        self.0
    }

    /// The stage with the given number, if it is below 49.
    pub fn new(id: u8) -> (s: Option<StageId>)
        ensures
            id < 49 ==> (s matches Some(x) && x.id() == id),
            id >= 49 ==> s is None,
    {
        if id >= (TOTAL_STORY_STAGES as u8) {
            None
        } else {
            Some(StageId(id))
        }
    }

    pub fn into_usize(self) -> (i: usize)
        ensures
            i == self.id(),
            i < 49,
    {
        proof {
            use_type_invariant(self);
        }
        self.0 as usize
    }

    pub fn into_u8(self) -> (i: u8)
        ensures
            i == self.id(),
    {
        self.0
    }

    pub fn into_i32(self) -> (i: i32)
        ensures
            i == self.id(),
    {
        self.0 as i32
    }

    /// Reads a stage as players number it, from 1 (0 is taken as 1).
    pub fn from_str(s: &str) -> (res: Result<StageId, String>)
        ensures
            match spec_parse_u8(encode_utf8(s@)) {
                Ok(n) => match res {
                    Ok(x) => x.id() == (if n == 0 { 0 } else { n - 1 }) && n <= 49,
                    Err(e) => n > 49 && e@ == "invalid stage id"@,
                },
                Err(k) => res matches Err(e) && e@ == int_error_text(k),
            },
    {
        let id = match parse_u8(str_bytes(s)) {
            Ok(id) => id,
            Err(k) => {
                return Err(int_error_message(k));
            },
        };
        let prev = if id > 0 { id - 1 } else { 0 };
        match StageId::new(prev) {
            Some(x) => Ok(x),
            None => Err("invalid stage id".to_owned()),
        }
    }
}

impl Default for StageId {
    fn default() -> (s: Self)
        ensures
            s.id() == 0,
    {
        StageId(0)
    }
}

/// The words `std` gives for why a number could not be read.
pub open spec fn int_error_text(k: IntErrorKind) -> Seq<char> {
    match k {
        IntErrorKind::Empty => "cannot parse integer from empty string"@,
        IntErrorKind::InvalidDigit => "invalid digit found in string"@,
        IntErrorKind::PosOverflow => "number too large to fit in target type"@,
        IntErrorKind::NegOverflow => "number too small to fit in target type"@,
    }
}

fn int_error_message(k: IntErrorKind) -> (s: String)
    ensures
        s@ == int_error_text(k),
{
    match k {
        IntErrorKind::Empty => "cannot parse integer from empty string".to_owned(),
        IntErrorKind::InvalidDigit => "invalid digit found in string".to_owned(),
        IntErrorKind::PosOverflow => "number too large to fit in target type".to_owned(),
        IntErrorKind::NegOverflow => "number too small to fit in target type".to_owned(),
    }
}

/// What a treasure is worth.
#[derive(Debug, Copy, Clone, PartialEq, Eq, Structural, Hash)]
pub enum TreasureValue {
    NoTreasure,
    Inferior,
    Normal,
    Superior,
    Custom(i32),
}

/// The number a treasure is stored as.
pub open spec fn treasure_number(t: TreasureValue) -> i32 {
    match t {
        TreasureValue::NoTreasure => 0,
        TreasureValue::Inferior => 1,
        TreasureValue::Normal => 2,
        TreasureValue::Superior => 3,
        TreasureValue::Custom(v) => v,
    }
}

impl TreasureValue {
    pub fn into_i32(self) -> (v: i32)
        ensures
            v == treasure_number(self),
    {
        match self {
            TreasureValue::NoTreasure => 0,
            TreasureValue::Inferior => 1,
            TreasureValue::Normal => 2,
            TreasureValue::Superior => 3,
            TreasureValue::Custom(v) => v,
        }
    }
}

/// A stage of a chapter.
#[derive(Debug, Copy, Clone, PartialEq, Eq, Structural, Hash)]
pub struct StoryStage {
    pub chapter: StoryChapterType,
    pub stage_id: StageId,
}

impl Default for StoryStage {
    fn default() -> (s: Self)
        ensures
            s.chapter == StoryChapterType::Eoc(InnerChapterType::First),
            s.stage_id.id() == 0,
    {
        StoryStage { chapter: StoryChapterType::default(), stage_id: StageId::default() }
    }
}

/// When clearing a stage moves the chapter's progress.
#[derive(Debug, Copy, Clone, PartialEq, Eq, Structural, Hash)]
pub enum ProgressType {
    /// Progress is set to the stage.
    AlwaysSetProgress,
    /// Progress is set to the stage only where it is beyond the progress.
    OnlySetProgressIfLaterStage,
}

impl Default for ProgressType {
    fn default() -> (p: Self)
        ensures
            p == ProgressType::OnlySetProgressIfLaterStage,
    {
        ProgressType::OnlySetProgressIfLaterStage
    }
}

/// How to clear one stage.
#[derive(Debug, Copy, Clone, PartialEq, Eq, Structural, Hash)]
pub struct ClearStageOptions {
    pub stage: StoryStage,
    pub clear_amount: i32,
    pub progress_type: ProgressType,
    pub add_to_clears: bool,
}

impl ClearStageOptions {
    pub fn with_clear_amount(self, clear_amount: i32) -> (o: Self)
        ensures
            o == (ClearStageOptions { clear_amount, ..self }),
    {
        ClearStageOptions {
            stage: self.stage,
            clear_amount,
            add_to_clears: self.add_to_clears,
            progress_type: self.progress_type,
        }
    }

    pub fn with_add_to_clears(self, add_to_clears: bool) -> (o: Self)
        ensures
            o == (ClearStageOptions { add_to_clears, ..self }),
    {
        ClearStageOptions {
            stage: self.stage,
            clear_amount: self.clear_amount,
            add_to_clears,
            progress_type: self.progress_type,
        }
    }

    pub fn with_chapter(self, chapter: StoryChapterType) -> (o: Self)
        ensures
            o == (ClearStageOptions { stage: StoryStage { chapter, stage_id: self.stage.stage_id }, ..self }),
    {
        ClearStageOptions {
            stage: StoryStage { chapter, stage_id: self.stage.stage_id },
            clear_amount: self.clear_amount,
            add_to_clears: self.add_to_clears,
            progress_type: self.progress_type,
        }
    }

    pub fn with_stage_id(self, stage_id: StageId) -> (o: Self)
        ensures
            o == (ClearStageOptions { stage: StoryStage { chapter: self.stage.chapter, stage_id }, ..self }),
    {
        ClearStageOptions {
            stage: StoryStage { chapter: self.stage.chapter, stage_id },
            clear_amount: self.clear_amount,
            add_to_clears: self.add_to_clears,
            progress_type: self.progress_type,
        }
    }

    pub fn with_stage(self, stage: StoryStage) -> (o: Self)
        ensures
            o == (ClearStageOptions { stage, ..self }),
    {
        ClearStageOptions {
            stage,
            clear_amount: self.clear_amount,
            add_to_clears: self.add_to_clears,
            progress_type: self.progress_type,
        }
    }

    pub fn with_progress_type(self, progress: ProgressType) -> (o: Self)
        ensures
            o == (ClearStageOptions { progress_type: progress, ..self }),
    {
        ClearStageOptions {
            stage: self.stage,
            clear_amount: self.clear_amount,
            add_to_clears: self.add_to_clears,
            progress_type: progress,
        }
    }
}

impl Default for ClearStageOptions {
    /// The first stage, cleared once, moving progress only forward.
    fn default() -> (o: Self)
        ensures
            o.stage.chapter == StoryChapterType::Eoc(InnerChapterType::First),
            o.stage.stage_id.id() == 0,
            o.clear_amount == 1,
            o.progress_type == ProgressType::OnlySetProgressIfLaterStage,
            !o.add_to_clears,
    {
        ClearStageOptions {
            stage: StoryStage::default(),
            clear_amount: 1,
            progress_type: ProgressType::default(),
            add_to_clears: false,
        }
    }
}

/// How to clear a whole chapter.
#[derive(Debug, Copy, Clone, PartialEq, Eq, Structural, Hash)]
pub struct ClearChapterOptions {
    pub chapter: StoryChapterType,
    pub clear_amount: i32,
    pub add_to_clears: bool,
}

impl ClearChapterOptions {
    pub fn with_clear_amount(self, clear_amount: i32) -> (o: Self)
        ensures
            o == (ClearChapterOptions { clear_amount, ..self }),
    {
        ClearChapterOptions { chapter: self.chapter, clear_amount, add_to_clears: self.add_to_clears }
    }

    pub fn with_add_to_clears(self, add_to_clears: bool) -> (o: Self)
        ensures
            o == (ClearChapterOptions { add_to_clears, ..self }),
    {
        ClearChapterOptions { chapter: self.chapter, clear_amount: self.clear_amount, add_to_clears }
    }

    pub fn with_chapter(self, chapter: StoryChapterType) -> (o: Self)
        ensures
            o == (ClearChapterOptions { chapter, ..self }),
    {
        ClearChapterOptions { chapter, clear_amount: self.clear_amount, add_to_clears: self.add_to_clears }
    }
}

impl Default for ClearChapterOptions {
    fn default() -> (o: Self)
        ensures
            o.chapter == StoryChapterType::Eoc(InnerChapterType::First),
            o.clear_amount == 1,
            !o.add_to_clears,
    {
        ClearChapterOptions { chapter: StoryChapterType::default(), clear_amount: 1, add_to_clears: false }
    }
}

/// How to clear every chapter.
#[derive(Debug, Copy, Clone, PartialEq, Eq, Structural, Hash)]
pub struct ClearAllChaptersOptions {
    pub clear_amount: i32,
    pub add_to_clears: bool,
}

impl Default for ClearAllChaptersOptions {
    fn default() -> (o: Self)
        ensures
            o.clear_amount == 1,
            !o.add_to_clears,
    {
        ClearAllChaptersOptions { clear_amount: 1, add_to_clears: false }
    }
}

impl ClearAllChaptersOptions {
    pub fn with_clear_amount(self, clear_amount: i32) -> (o: Self)
        ensures
            o == (ClearAllChaptersOptions { clear_amount, ..self }),
    {
        ClearAllChaptersOptions { clear_amount, add_to_clears: self.add_to_clears }
    }

    pub fn with_add_to_clears(self, add_to_clears: bool) -> (o: Self)
        ensures
            o == (ClearAllChaptersOptions { add_to_clears, ..self }),
    {
        ClearAllChaptersOptions { clear_amount: self.clear_amount, add_to_clears }
    }
}

/* Reading and writing */

pub type StoryChaptersTuple = (
    ([i32; TOTAL_STORY_CHAPTERS], [i32; TOTAL_STORY_CHAPTERS]),
    ([[i32; TOTAL_CLEAR_TIME_STAGES]; TOTAL_STORY_CHAPTERS], [[i32; TOTAL_STORY_STAGES]; TOTAL_STORY_CHAPTERS]),
);

pub open spec fn story_tuple(s: StoryChapters) -> StoryChaptersTuple {
    ((s.selected_stages, s.chapter_progress), (s.clear_times, s.treasures))
}

pub open spec fn story_from_tuple(t: StoryChaptersTuple) -> StoryChapters {
    StoryChapters {
        selected_stages: t.0.0,
        chapter_progress: t.0.1,
        clear_times: t.1.0,
        treasures: t.1.1,
    }
}

impl Readable for StoryChapters {
    open spec fn spec_read(bytes: Seq<u8>) -> Option<(StoryChapters, int)> {
        match StoryChaptersTuple::spec_read(bytes) {
            Some((t, k)) => Some((story_from_tuple(t), k)),
            None => None,
        }
    }

    proof fn lemma_read_bounds(bytes: Seq<u8>) {
        StoryChaptersTuple::lemma_read_bounds(bytes);
    }

    fn read(r: &mut Reader) -> (res: StreamResult<StoryChapters>) {
        let ((selected_stages, chapter_progress), (clear_times, treasures)) = StoryChaptersTuple::read(r)?;
        Ok(StoryChapters { selected_stages, chapter_progress, clear_times, treasures })
    }
}

impl Writable for StoryChapters {
    open spec fn spec_write(&self) -> Seq<u8> {
        story_tuple(*self).spec_write()
    }

    open spec fn can_write(&self) -> bool {
        true
    }

    open spec fn spec_default() -> StoryChapters {
        story_from_tuple(StoryChaptersTuple::spec_default())
    }

    fn write(&self, w: &mut Writer) {
        let t = ((self.selected_stages, self.chapter_progress), (self.clear_times, self.treasures));
        assert(t.can_write());
        t.write(w);
    }

    fn default_value() -> (d: StoryChapters) {
        let t = StoryChaptersTuple::default_value();
        StoryChapters { selected_stages: t.0.0, chapter_progress: t.0.1, clear_times: t.1.0, treasures: t.1.1 }
    }

    proof fn lemma_default_writable() {
        StoryChaptersTuple::lemma_default_writable();
    }
}

impl Codec for StoryChapters {
    proof fn lemma_roundtrip(v: StoryChapters, rest: Seq<u8>) {
        assert(story_tuple(v).can_write());
        StoryChaptersTuple::lemma_roundtrip(story_tuple(v), rest);
    }
}

impl Default for StoryChapters {
    fn default() -> (s: Self)
        ensures
            forall|c: int| 0 <= c < 10 ==> s.selected_stages@[c] == 0 && s.chapter_progress@[c] == 0,
            forall|c: int, t: int| 0 <= c < 10 && 0 <= t < 51 ==> s.clear_times@[c]@[t] == 0,
            forall|c: int, t: int| 0 <= c < 10 && 0 <= t < 49 ==> s.treasures@[c]@[t] == 0,
    {
        StoryChapters {
            selected_stages: [0; TOTAL_STORY_CHAPTERS],
            chapter_progress: [0; TOTAL_STORY_CHAPTERS],
            clear_times: [[0; TOTAL_CLEAR_TIME_STAGES]; TOTAL_STORY_CHAPTERS],
            treasures: [[0; TOTAL_STORY_STAGES]; TOTAL_STORY_CHAPTERS],
        }
    }
}

/* Editing progress */

/// `a + b` clamped to the range of `i32`.
pub open spec fn sat_add(a: i32, b: i32) -> i32 {
    if a + b > i32::MAX {
        i32::MAX
    } else if a + b < i32::MIN {
        i32::MIN
    } else {
        (a + b) as i32
    }
}

fn saturating_add_i32(a: i32, b: i32) -> (c: i32)
    ensures
        c == sat_add(a, b),
{
    let s: i64 = a as i64 + b as i64;
    if s > i32::MAX as i64 {
        i32::MAX
    } else if s < i32::MIN as i64 {
        i32::MIN
    } else {
        s as i32
    }
}

/// The clear count of a stage after clearing it `amount` times: added to the
/// count (clamped) or replacing it.
pub open spec fn cleared(current: i32, amount: i32, add: bool) -> i32 {
    if add {
        sat_add(current, amount)
    } else {
        amount
    }
}

/// Clear counts as rows of numbers.
pub open spec fn clears_view(s: StoryChapters) -> Seq<Seq<i32>> {
    s.clear_times@.map_values(|row: [i32; TOTAL_CLEAR_TIME_STAGES]| row@)
}

pub open spec fn treasures_view(s: StoryChapters) -> Seq<Seq<i32>> {
    s.treasures@.map_values(|row: [i32; TOTAL_STORY_STAGES]| row@)
}

/// A grid with one value replaced.
pub open spec fn grid_set(g: Seq<Seq<i32>>, c: int, t: int, v: i32) -> Seq<Seq<i32>> {
    g.update(c, g[c].update(t, v))
}

/// Progress after clearing a stage: set to the stage, or moved to it only
/// where it lies beyond the progress.
pub open spec fn progress_after(p: Seq<i32>, stage: StoryStage, t: ProgressType) -> Seq<i32> {
    let c = chapter_index(stage.chapter);
    let id = stage.stage_id.id() as i32;
    match t {
        ProgressType::AlwaysSetProgress => p.update(c, id),
        ProgressType::OnlySetProgressIfLaterStage => if id > p[c] {
            p.update(c, id)
        } else {
            p
        },
    }
}

/// A chapter's clear counts after clearing each of its 49 stages.
pub open spec fn chapter_cleared(row: Seq<i32>, amount: i32, add: bool) -> Seq<i32> {
    Seq::new(row.len(), |t: int| if t < 49 { cleared(row[t], amount, add) } else { row[t] })
}

/// The slot of the chapter with the given number in story order.
pub open spec fn number_index(j: int) -> int {
    if j < 3 {
        j
    } else {
        j + 1
    }
}

pub proof fn lemma_chapter_by_number(j: int)
    requires
        0 <= j < 9,
    ensures
        chapter_by_number(j) matches Some(c) && chapter_index(c) == number_index(j),
{
}

impl StoryChapters {
    pub fn get_chapter_progress(&self, stage: StoryStage) -> (p: i32)
        ensures
            p == self.chapter_progress@[chapter_index(stage.chapter)],
    {
        self.chapter_progress[stage.chapter.into_chapter_index()]
    }

    /// Sets the chapter's progress to the stage.
    pub fn set_chapter_progress(&mut self, stage: StoryStage)
        ensures
            final(self).chapter_progress@ == old(self).chapter_progress@.update(
                chapter_index(stage.chapter),
                stage.stage_id.id() as i32,
            ),
            final(self).selected_stages == old(self).selected_stages,
            final(self).clear_times == old(self).clear_times,
            final(self).treasures == old(self).treasures,
    {
        let c = stage.chapter.into_chapter_index();
        self.chapter_progress[c] = stage.stage_id.into_i32();
    }

    /// Moves the chapter's progress to the stage where the stage lies beyond
    /// it; tells whether it moved.
    pub fn add_chapter_progress(&mut self, stage: StoryStage) -> (moved: bool)
        ensures
            moved == (stage.stage_id.id() > old(self).chapter_progress@[chapter_index(stage.chapter)]),
            final(self).chapter_progress@ == progress_after(
                old(self).chapter_progress@,
                stage,
                ProgressType::OnlySetProgressIfLaterStage,
            ),
            final(self).selected_stages == old(self).selected_stages,
            final(self).clear_times == old(self).clear_times,
            final(self).treasures == old(self).treasures,
    {
        let current = self.get_chapter_progress(stage);
        let stage_id: i32 = stage.stage_id.into_i32();
        if stage_id > current {
            self.set_chapter_progress(stage);
            true
        } else {
            false
        }
    }

    pub fn get_clear_amount(&self, stage: StoryStage) -> (a: i32)
        ensures
            a == clears_view(*self)[chapter_index(stage.chapter)][stage.stage_id.id() as int],
    {
        let c = stage.chapter.into_chapter_index();
        let t = stage.stage_id.into_usize();
        self.clear_times[c][t]
    }

    /// Sets how often the stage was cleared.
    pub fn set_clear_amount(&mut self, stage: StoryStage, amount: i32)
        ensures
            clears_view(*final(self)) == grid_set(
                clears_view(*old(self)),
                chapter_index(stage.chapter),
                stage.stage_id.id() as int,
                amount,
            ),
            final(self).selected_stages == old(self).selected_stages,
            final(self).chapter_progress == old(self).chapter_progress,
            final(self).treasures == old(self).treasures,
    {
        let c = stage.chapter.into_chapter_index();
        let t = stage.stage_id.into_usize();
        let mut row = self.clear_times[c];
        row[t] = amount;
        self.clear_times[c] = row;
        assert(clears_view(*self) =~= grid_set(
            clears_view(*old(self)),
            chapter_index(stage.chapter),
            stage.stage_id.id() as int,
            amount,
        ));
    }

    /// Adds to how often the stage was cleared, clamped to the range of `i32`.
    pub fn add_clear_amount(&mut self, stage: StoryStage, amount: i32)
        ensures
            clears_view(*final(self)) == grid_set(
                clears_view(*old(self)),
                chapter_index(stage.chapter),
                stage.stage_id.id() as int,
                sat_add(clears_view(*old(self))[chapter_index(stage.chapter)][stage.stage_id.id() as int], amount),
            ),
            final(self).selected_stages == old(self).selected_stages,
            final(self).chapter_progress == old(self).chapter_progress,
            final(self).treasures == old(self).treasures,
    {
        let current = self.get_clear_amount(stage);
        self.set_clear_amount(stage, saturating_add_i32(current, amount));
    }

    pub fn set_treasure(&mut self, stage: StoryStage, treasure_value: TreasureValue)
        ensures
            treasures_view(*final(self)) == grid_set(
                treasures_view(*old(self)),
                chapter_index(stage.chapter),
                stage.stage_id.id() as int,
                treasure_number(treasure_value),
            ),
            final(self).selected_stages == old(self).selected_stages,
            final(self).chapter_progress == old(self).chapter_progress,
            final(self).clear_times == old(self).clear_times,
    {
        let c = stage.chapter.into_chapter_index();
        let t = stage.stage_id.into_usize();
        let mut row = self.treasures[c];
        row[t] = treasure_value.into_i32();
        self.treasures[c] = row;
        assert(treasures_view(*self) =~= grid_set(
            treasures_view(*old(self)),
            chapter_index(stage.chapter),
            stage.stage_id.id() as int,
            treasure_number(treasure_value),
        ));
    }

    /// Clears a stage: moves the progress as the options say, then sets or
    /// adds to its clear count.
    pub fn clear_stage(&mut self, opts: ClearStageOptions)
        ensures
            final(self).chapter_progress@ == progress_after(
                old(self).chapter_progress@,
                opts.stage,
                opts.progress_type,
            ),
            clears_view(*final(self)) == grid_set(
                clears_view(*old(self)),
                chapter_index(opts.stage.chapter),
                opts.stage.stage_id.id() as int,
                cleared(
                    clears_view(*old(self))[chapter_index(opts.stage.chapter)][opts.stage.stage_id.id() as int],
                    opts.clear_amount,
                    opts.add_to_clears,
                ),
            ),
            final(self).selected_stages == old(self).selected_stages,
            final(self).treasures == old(self).treasures,
    {
        match opts.progress_type {
            ProgressType::AlwaysSetProgress => self.set_chapter_progress(opts.stage),
            ProgressType::OnlySetProgressIfLaterStage => {
                self.add_chapter_progress(opts.stage);
            },
        }
        if opts.add_to_clears {
            self.add_clear_amount(opts.stage, opts.clear_amount);
        } else {
            self.set_clear_amount(opts.stage, opts.clear_amount);
        }
    }

    /// Clears every stage of a chapter; its progress ends at the last stage.
    pub fn clear_chapter(&mut self, opts: ClearChapterOptions)
        ensures
            final(self).chapter_progress@ == old(self).chapter_progress@.update(chapter_index(opts.chapter), 48),
            clears_view(*final(self)) == clears_view(*old(self)).update(
                chapter_index(opts.chapter),
                chapter_cleared(clears_view(*old(self))[chapter_index(opts.chapter)], opts.clear_amount, opts.add_to_clears),
            ),
            final(self).selected_stages == old(self).selected_stages,
            final(self).treasures == old(self).treasures,
    {
        let ghost c = chapter_index(opts.chapter);
        let ghost g0 = clears_view(*old(self));
        let mut stage_ind: usize = 0;
        while stage_ind < TOTAL_STORY_STAGES
            invariant
                0 <= c < 10,
                c == chapter_index(opts.chapter),
                g0 == clears_view(*old(self)),
                stage_ind <= 49,
                clears_view(*self).len() == 10,
                g0.len() == 10,
                g0[c].len() == 51,
                forall|x: int| 0 <= x < 10 && x != c ==> #[trigger] clears_view(*self)[x] == g0[x],
                clears_view(*self)[c].len() == 51,
                forall|t: int|
                    0 <= t < 51 ==> #[trigger] clears_view(*self)[c][t] == if t < stage_ind {
                        cleared(g0[c][t], opts.clear_amount, opts.add_to_clears)
                    } else {
                        g0[c][t]
                    },
                stage_ind == 0 ==> self.chapter_progress == old(self).chapter_progress,
                stage_ind > 0 ==> self.chapter_progress@ == old(self).chapter_progress@.update(c, (stage_ind - 1) as i32),
                self.selected_stages == old(self).selected_stages,
                self.treasures == old(self).treasures,
            decreases 49 - stage_ind,
        {
            let stage_id = match StageId::new(stage_ind as u8) {
                Some(x) => x,
                None => {
                    assert(false);
                    StageId(0)
                },
            };
            let ghost before = clears_view(*self);
            self.clear_stage(
                ClearStageOptions {
                    stage: StoryStage { chapter: opts.chapter, stage_id },
                    clear_amount: opts.clear_amount,
                    progress_type: ProgressType::AlwaysSetProgress,
                    add_to_clears: opts.add_to_clears,
                },
            );
            proof {
                assert(self.chapter_progress@ =~= old(self).chapter_progress@.update(c, stage_ind as i32));
            }
            stage_ind = stage_ind + 1;
        }
        assert(clears_view(*self)[c] =~= chapter_cleared(g0[c], opts.clear_amount, opts.add_to_clears));
        assert(clears_view(*self) =~= clears_view(*old(self)).update(
            c,
            chapter_cleared(g0[c], opts.clear_amount, opts.add_to_clears),
        ));
    }

    /// Clears every stage of every chapter; the unused slot is left alone.
    pub fn clear_all(&mut self, opts: ClearAllChaptersOptions)
        ensures
            forall|c: int|
                0 <= c < 10 ==> #[trigger] final(self).chapter_progress@[c] == if c == 3 {
                    old(self).chapter_progress@[c]
                } else {
                    48
                },
            forall|c: int|
                0 <= c < 10 ==> #[trigger] clears_view(*final(self))[c] == if c == 3 {
                    clears_view(*old(self))[c]
                } else {
                    chapter_cleared(clears_view(*old(self))[c], opts.clear_amount, opts.add_to_clears)
                },
            final(self).selected_stages == old(self).selected_stages,
            final(self).treasures == old(self).treasures,
    {
        let all = StoryChapterType::all();
        let ghost p0 = old(self).chapter_progress@;
        let ghost g0 = clears_view(*old(self));
        let mut i: usize = 0;
        while i < 9
            invariant
                forall|j: int| 0 <= j < 9 ==> chapter_by_number(j) == Some(#[trigger] all@[j]),
                p0 == old(self).chapter_progress@,
                g0 == clears_view(*old(self)),
                i <= 9,
                g0.len() == 10,
                forall|c: int| 0 <= c < 10 ==> (#[trigger] g0[c]).len() == 51,
                self.chapter_progress@.len() == 10,
                clears_view(*self).len() == 10,
                forall|c: int|
                    0 <= c < 10 ==> #[trigger] self.chapter_progress@[c] == if c != 3 && (if c < 3 {
                        c
                    } else {
                        c - 1
                    }) < i {
                        48
                    } else {
                        p0[c]
                    },
                forall|c: int|
                    0 <= c < 10 ==> #[trigger] clears_view(*self)[c] == if c != 3 && (if c < 3 {
                        c
                    } else {
                        c - 1
                    }) < i {
                        chapter_cleared(g0[c], opts.clear_amount, opts.add_to_clears)
                    } else {
                        g0[c]
                    },
                self.selected_stages == old(self).selected_stages,
                self.treasures == old(self).treasures,
            decreases 9 - i,
        {
            let chapter = all[i];
            proof {
                lemma_chapter_by_number(i as int);
            }
            let ghost before = clears_view(*self);
            self.clear_chapter(
                ClearChapterOptions { chapter, clear_amount: opts.clear_amount, add_to_clears: opts.add_to_clears },
            );
            i = i + 1;
        }
    }
}

/// What a read of a chapter's progress gives after it was set: the stage
/// set, for that chapter; the earlier value, for every other chapter.
pub proof fn lemma_progress_set_get(p: Seq<i32>, stage: StoryStage, other: StoryChapterType)
    requires
        p.len() == 10,
    ensures
        p.update(chapter_index(stage.chapter), stage.stage_id.id() as i32)[chapter_index(stage.chapter)]
            == stage.stage_id.id() as i32,
        other != stage.chapter ==> p.update(chapter_index(stage.chapter), stage.stage_id.id() as i32)[chapter_index(
            other,
        )] == p[chapter_index(other)],
{
    lemma_chapter_index(stage.chapter, other);
    lemma_chapter_index(other, stage.chapter);
}

/// What a read of a clear count gives after it was set: the amount set, for
/// that stage; the earlier count, for every other stage.
pub proof fn lemma_clears_set_get(g: Seq<Seq<i32>>, stage: StoryStage, amount: i32, other: StoryStage)
    requires
        g.len() == 10,
        forall|c: int| 0 <= c < 10 ==> (#[trigger] g[c]).len() == 51,
        stage.stage_id.id() < 49,
        other.stage_id.id() < 49,
    ensures
        grid_set(g, chapter_index(stage.chapter), stage.stage_id.id() as int, amount)[chapter_index(
            stage.chapter,
        )][stage.stage_id.id() as int] == amount,
        other != stage ==> grid_set(g, chapter_index(stage.chapter), stage.stage_id.id() as int, amount)[chapter_index(
            other.chapter,
        )][other.stage_id.id() as int] == g[chapter_index(other.chapter)][other.stage_id.id() as int],
{
    lemma_chapter_index(stage.chapter, other.chapter);
    lemma_chapter_index(other.chapter, stage.chapter);
    if other != stage && other.chapter == stage.chapter {
        assert(other.stage_id != stage.stage_id);
        assert(other.stage_id.id() != stage.stage_id.id());
    }
}


/// Each part has a name that reads as that part: "eoc" is Empire of Cats,
/// "itf" Into the Future and "cotc" Cats of the Cosmos.
pub proof fn lemma_outer_names()
    ensures
        spec_parse_outer("eoc"@) == Some(StoryChapterTypeOuter::Eoc),
        spec_parse_outer("itf"@) == Some(StoryChapterTypeOuter::Itf),
        spec_parse_outer("cotc"@) == Some(StoryChapterTypeOuter::Cotc),
{
    reveal_strlit("eoc");
    reveal_strlit("itf");
    reveal_strlit("cotc");
    assert(ascii_chars(eoc_bytes()) =~= "eoc"@);
    assert(ascii_chars(itf_bytes()) =~= "itf"@);
    assert(ascii_chars(cotc_bytes()) =~= "cotc"@);
    assert("itf"@[0] != "eoc"@[0]);
    assert("cotc"@.len() != "eoc"@.len() && "cotc"@.len() != "itf"@.len());
}

/// Two words that read as the same part are the same word: no part has two
/// names.
pub proof fn lemma_outer_parse_injective(a: Seq<char>, b: Seq<char>)
    requires
        spec_parse_outer(a) is Some,
        spec_parse_outer(a) == spec_parse_outer(b),
    ensures
        a == b,
{
}

/// Each chapter of a part has a name that reads as it: "first", "second"
/// and "third".
pub proof fn lemma_inner_names()
    ensures
        spec_parse_inner("first"@) == Some(InnerChapterType::First),
        spec_parse_inner("second"@) == Some(InnerChapterType::Second),
        spec_parse_inner("third"@) == Some(InnerChapterType::Third),
{
    reveal_strlit("first");
    reveal_strlit("second");
    reveal_strlit("third");
    assert(ascii_chars(first_bytes()) =~= "first"@);
    assert(ascii_chars(second_bytes()) =~= "second"@);
    assert(ascii_chars(third_bytes()) =~= "third"@);
    assert("third"@[1] != "first"@[1]);
    assert("second"@.len() != "first"@.len() && "third"@.len() != "second"@.len());
}

/// Two words that read as the same chapter of a part are the same word.
pub proof fn lemma_inner_parse_injective(a: Seq<char>, b: Seq<char>)
    requires
        spec_parse_inner(a) is Some,
        spec_parse_inner(a) == spec_parse_inner(b),
    ensures
        a == b,
{
}

} // verus!
