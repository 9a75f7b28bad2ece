//! Rows of copied data, worked off in steps.

use vstd::prelude::*;

use crate::exec::copy::COPY_ERROR_FIELDS_PREFIX;
use crate::exec::copy_rows::{CopyItem, CopyItemView, CopyRow, CopyRowView};
use crate::exec::pgcore::{InputDatum, PgCoreError, PgCoreErrorView};
use crate::search;
use crate::text;

verus! {

/// A value as it is stored: a machine word, or bytes.
#[derive(Debug, PartialEq, Eq)]
pub enum CopyDatum {
    ByValue(usize),
    ByReference(Vec<u8>),
}

pub enum CopyDatumView {
    ByValue(usize),
    ByReference(Seq<u8>),
}

impl View for CopyDatum {
    type V = CopyDatumView;

    open spec fn view(&self) -> CopyDatumView {
        match self {
            CopyDatum::ByValue(v) => CopyDatumView::ByValue(*v),
            CopyDatum::ByReference(bytes) => CopyDatumView::ByReference(bytes@),
        }
    }
}

impl Clone for CopyDatum {
    fn clone(&self) -> (r: Self)
        ensures
            r@ == self@,
    {
        match self {
            CopyDatum::ByValue(v) => CopyDatum::ByValue(*v),
            CopyDatum::ByReference(bytes) => {
                let again = bytes.clone();
                assert(again@ =~= bytes@);
                CopyDatum::ByReference(again)
            },
        }
    }
}

/// What is stored of what a type's input made of a text.
pub open spec fn stored(datum: InputDatum) -> CopyDatumView {
    if datum.typbyval {
        CopyDatumView::ByValue(datum.value)
    } else {
        match datum.payload {
            Some(bytes) => CopyDatumView::ByReference(bytes@),
            None => CopyDatumView::ByReference(seq![]),
        }
    }
}

fn datum_to_store(datum: InputDatum) -> (r: CopyDatum)
    ensures
        r@ == stored(datum),
{
    if datum.typbyval {
        CopyDatum::ByValue(datum.value)
    } else {
        match datum.payload {
            Some(bytes) => CopyDatum::ByReference(bytes),
            None => {
                let bytes: Vec<u8> = Vec::new();
                assert(bytes@ =~= seq![]);
                CopyDatum::ByReference(bytes)
            },
        }
    }
}

pub open spec fn datum_views(datums: Seq<Option<CopyDatum>>) -> Seq<Option<CopyDatumView>> {
    Seq::new(datums.len(), |i: int| search::option_view(datums[i]))
}

/// How far a row is worked off: the item that is next, and what the places of the
/// row hold.
#[derive(Debug, PartialEq, Eq)]
pub struct CopyProgress {
    pub next: usize,
    pub datums: Vec<Option<CopyDatum>>,
}

pub struct CopyProgressView {
    pub next: int,
    pub datums: Seq<Option<CopyDatumView>>,
}

impl View for CopyProgress {
    type V = CopyProgressView;

    open spec fn view(&self) -> CopyProgressView {
        CopyProgressView { next: self.next as int, datums: datum_views(self.datums@) }
    }
}

impl CopyProgressView {
    /// Whether this is a state of working off a row.
    pub open spec fn wf(self, row: CopyRowView) -> bool {
        0 <= self.next <= row.items.len() && self.datums.len() == row.width
    }
}

/// What has to be done for a row next.
#[derive(Debug, PartialEq, Eq)]
pub enum CopyStep {
    /// The row is refused, with a message.
    Refuse(String),
    /// The row is left out.
    Skip,
    /// A text has to be read as a value of a type.
    Read { type_oid: u32, type_modifier: i32, text: String },
    /// The row is complete and can be stored.
    Store,
}

pub enum CopyStepView {
    Refuse(Seq<char>),
    Skip,
    Read { type_oid: u32, type_modifier: i32, text: Seq<char> },
    Store,
}

impl View for CopyStep {
    type V = CopyStepView;

    open spec fn view(&self) -> CopyStepView {
        match self {
            CopyStep::Refuse(message) => CopyStepView::Refuse(message@),
            CopyStep::Skip => CopyStepView::Skip,
            CopyStep::Read { type_oid, type_modifier, text } => CopyStepView::Read {
                type_oid: *type_oid,
                type_modifier: *type_modifier,
                text: text@,
            },
            CopyStep::Store => CopyStepView::Store,
        }
    }
}

/// The state in which nothing of a row is worked off: every place is null.
pub open spec fn at_start(row: CopyRowView) -> CopyProgressView {
    CopyProgressView { next: 0, datums: Seq::new(row.width as nat, |i: int| None) }
}

pub fn start_row(row: &CopyRow) -> (r: CopyProgress)
    ensures
        r@ == at_start(row@),
        r@.wf(row@),
{
    let mut datums: Vec<Option<CopyDatum>> = Vec::new();
    let mut i: usize = 0;
    while i < row.width
        invariant
            i <= row.width,
            datums@.len() == i,
            forall|j: int| 0 <= j < i ==> #[trigger] datums@[j] is None,
        decreases row.width - i,
    {
        datums.push(None);
        i += 1;
    }
    let r = CopyProgress { next: 0, datums };
    assert(r@.datums =~= at_start(row@).datums);
    r
}

impl CopyProgressView {
    /// With a place of the row set and the next item past.
    pub open spec fn put(self, slot: int, datum: Option<CopyDatumView>) -> CopyProgressView {
        CopyProgressView { next: self.next + 1, datums: self.datums.update(slot, datum) }
    }
}

/// The state in which the next step is to be done, and that step: nulls are put
/// without one.
pub open spec fn step_from(row: CopyRowView, p: CopyProgressView) -> (
    CopyProgressView,
    CopyStepView,
)
    decreases row.items.len() - p.next,
{
    if p.next < 0 || p.next >= row.items.len() {
        (p, CopyStepView::Store)
    } else {
        match row.items[p.next] {
            CopyItemView::Bad(message) => (p, CopyStepView::Refuse(message)),
            CopyItemView::Null(slot) => step_from(row, p.put(slot as int, None)),
            CopyItemView::Text { slot, type_oid, type_modifier, text } => (
                p,
                CopyStepView::Read { type_oid, type_modifier, text },
            ),
        }
    }
}

/// Goes on to the next step of a row.
pub fn next_step(row: &CopyRow, progress: &mut CopyProgress) -> (r: CopyStep)
    requires
        row@.wf(),
        old(progress)@.wf(row@),
    ensures
        (final(progress)@, r@) == step_from(row@, old(progress)@),
        final(progress)@.wf(row@),
{
    while progress.next < row.items.len()
        invariant
            row@.wf(),
            progress@.wf(row@),
            step_from(row@, progress@) == step_from(row@, old(progress)@),
        decreases row.items.len() - progress.next,
    {
        let ghost before = progress@;
        assert(row@.items[progress.next as int] == row.items@[progress.next as int]@);
        match &row.items[progress.next] {
            CopyItem::Bad(message) => {
                return CopyStep::Refuse(message.clone());
            },
            CopyItem::Null(slot) => {
                assert(row@.items[progress.next as int].fits(row@.width as int));
                progress.datums.set(*slot, None);
                progress.next = progress.next + 1;
                assert(progress@.datums =~= before.put(*slot as int, None).datums);
            },
            CopyItem::Text { slot: _, type_oid, type_modifier, text } => {
                return CopyStep::Read {
                    type_oid: *type_oid,
                    type_modifier: *type_modifier,
                    text: text.clone(),
                };
            },
        }
    }
    CopyStep::Store
}

/// A text, or nothing of it where there is none.
pub open spec fn text_or_empty(s: Option<Seq<char>>) -> Seq<char> {
    match s {
        Some(s) => s,
        None => seq![],
    }
}

/// The message that carries an error of the core: what marks it, and the
/// message, the detail, the hint and the context, a line each.
pub open spec fn carried_error(error: PgCoreErrorView) -> Seq<char> {
    COPY_ERROR_FIELDS_PREFIX@ + error.message + "\n"@ + text_or_empty(error.detail) + "\n"@
        + text_or_empty(error.hint) + "\n"@ + text_or_empty(error.context)
}

fn push_line(message: &mut Vec<char>, line: &Option<String>)
    ensures
        final(message)@ == old(message)@ + "\n"@ + text_or_empty(search::option_view(*line)),
{
    text::push_text(message, "\n");
    match line {
        Some(line) => {
            text::push_text(message, line.as_str());
        },
        None => {
            assert(message@ + Seq::<char>::empty() =~= message@);
        },
    }
}

pub fn pgcore_copy_error(error: &PgCoreError) -> (r: String)
    ensures
        r@ == carried_error(error@),
{
    let mut message = text::chars_of(COPY_ERROR_FIELDS_PREFIX);
    text::push_text(&mut message, error.message.as_str());
    push_line(&mut message, &error.detail);
    push_line(&mut message, &error.hint);
    push_line(&mut message, &error.context);
    text::string_of(&message)
}

/// Where the text of the next item goes.
pub open spec fn awaited_slot(row: CopyRowView, p: CopyProgressView) -> int {
    match row.items[p.next] {
        CopyItemView::Text { slot, .. } => slot as int,
        _ => 0,
    }
}

/// Whether the next item is a text that has to be read.
pub open spec fn awaits_a_value(row: CopyRowView, p: CopyProgressView) -> bool {
    0 <= p.next < row.items.len() && row.items[p.next] is Text
}

/// What becomes of a row whose text could not be read.
pub open spec fn on_refusal(row: CopyRowView, error: PgCoreErrorView) -> CopyStepView {
    if row.ignore_errors {
        CopyStepView::Skip
    } else {
        CopyStepView::Refuse(carried_error(error))
    }
}

/// Takes what the core made of the text that was asked for, and goes on.
pub fn take_reply(
    row: &CopyRow,
    progress: &mut CopyProgress,
    reply: Result<InputDatum, PgCoreError>,
) -> (r: CopyStep)
    requires
        row@.wf(),
        old(progress)@.wf(row@),
        awaits_a_value(row@, old(progress)@),
    ensures
        final(progress)@.wf(row@),
        match reply {
            Ok(datum) => (final(progress)@, r@) == step_from(
                row@,
                old(progress)@.put(
                    awaited_slot(row@, old(progress)@),
                    Some(stored(datum)),
                ),
            ),
            Err(error) => final(progress)@ == old(progress)@ && r@ == on_refusal(row@, error@),
        },
{
    match reply {
        Ok(datum) => {
            let ghost before = progress@;
            let total = row.items.len();
            assert(progress.next < total);
            assert(row@.items[progress.next as int] == row.items@[progress.next as int]@);
            assert(row@.items[progress.next as int].fits(row@.width as int));
            let slot: usize = match &row.items[progress.next] {
                CopyItem::Text { slot, type_oid: _, type_modifier: _, text: _ } => *slot,
                _ => 0,
            };
            let value = datum_to_store(datum);
            progress.datums.set(slot, Some(value));
            progress.next = progress.next + 1;
            assert(progress@.datums =~= before.put(slot as int, Some(stored(datum))).datums);
            next_step(row, progress)
        },
        Err(error) => {
            if row.ignore_errors {
                CopyStep::Skip
            } else {
                CopyStep::Refuse(pgcore_copy_error(&error))
            }
        },
    }
}

/// What becomes of a row.
pub enum CopyOutcomeView {
    Refused(Seq<char>),
    Skipped,
    Stored(Seq<Option<CopyDatumView>>),
}

/// A core that reads every text the same way each time.
pub type Reading = spec_fn((u32, i32, Seq<char>)) -> Result<InputDatum, PgCoreErrorView>;

/// What becomes of a row from a state on, where the core reads texts in a way.
pub open spec fn outcome_from(
    row: CopyRowView,
    reading: Reading,
    p: CopyProgressView,
) -> CopyOutcomeView
    decreases row.items.len() - p.next,
{
    if p.next < 0 || p.next >= row.items.len() {
        CopyOutcomeView::Stored(p.datums)
    } else {
        match row.items[p.next] {
            CopyItemView::Bad(message) => CopyOutcomeView::Refused(message),
            CopyItemView::Null(slot) => outcome_from(row, reading, p.put(slot as int, None)),
            CopyItemView::Text { slot, type_oid, type_modifier, text } => match reading(
                (type_oid, type_modifier, text),
            ) {
                Ok(datum) => outcome_from(
                    row,
                    reading,
                    p.put(slot as int, Some(stored(datum))),
                ),
                Err(error) => if row.ignore_errors {
                    CopyOutcomeView::Skipped
                } else {
                    CopyOutcomeView::Refused(carried_error(error))
                },
            },
        }
    }
}

/// Step by step a row comes to what it comes to as a whole: a step that ends the
/// row tells its outcome, and a reply to a step that asks for one leads to a state
/// with the same outcome.
pub proof fn steps_lead_to_the_outcome(
    row: CopyRowView,
    reading: Reading,
    p: CopyProgressView,
)
    requires
        row.wf(),
        p.wf(row),
    ensures
        ({
            let (q, step) = step_from(row, p);
            match step {
                CopyStepView::Refuse(message) => outcome_from(row, reading, p)
                    == CopyOutcomeView::Refused(message),
                CopyStepView::Skip => false,
                CopyStepView::Store => outcome_from(row, reading, p) == CopyOutcomeView::Stored(
                    q.datums,
                ),
                CopyStepView::Read { type_oid, type_modifier, text } => {
                    &&& awaits_a_value(row, q)
                    &&& q.next >= p.next
                    &&& match reading((type_oid, type_modifier, text)) {
                        Ok(datum) => outcome_from(row, reading, p) == outcome_from(
                            row,
                            reading,
                            q.put(awaited_slot(row, q), Some(stored(datum))),
                        ),
                        Err(error) => match on_refusal(row, error) {
                            CopyStepView::Skip => outcome_from(row, reading, p)
                                == CopyOutcomeView::Skipped,
                            CopyStepView::Refuse(message) => outcome_from(row, reading, p)
                                == CopyOutcomeView::Refused(message),
                            _ => false,
                        },
                    }
                },
            }
        }),
    decreases row.items.len() - p.next,
{
    if p.next < row.items.len() {
        match row.items[p.next] {
            CopyItemView::Null(slot) => {
                assert(row.items[p.next].fits(row.width as int));
                steps_lead_to_the_outcome(row, reading, p.put(slot as int, None));
            },
            _ => {},
        }
    }
}

/// The place that an item is for.
pub open spec fn slot_of(item: CopyItemView) -> Option<int> {
    match item {
        CopyItemView::Bad(_) => None,
        CopyItemView::Null(slot) => Some(slot as int),
        CopyItemView::Text { slot, .. } => Some(slot as int),
    }
}

/// A row that is stored has as many places as its width says, and a place that is
/// null stays so where no item is for it.
pub proof fn places_without_an_item_are_null(
    row: CopyRowView,
    reading: Reading,
    p: CopyProgressView,
    place: int,
)
    requires
        row.wf(),
        p.wf(row),
        0 <= place < row.width,
        p.datums[place] is None,
        forall|i: int|
            0 <= i < row.items.len() ==> slot_of(#[trigger] row.items[i]) != Some(place),
    ensures
        match outcome_from(row, reading, p) {
            CopyOutcomeView::Stored(datums) => datums.len() == row.width && datums[place] is None,
            _ => true,
        },
{
    lemma_a_place_keeps(row, reading, p, place);
}

/// What an item gives where the core reads texts in a way: nothing if it is not
/// for a place or its text is refused.
pub open spec fn given(item: CopyItemView, reading: Reading) -> Option<Option<CopyDatumView>> {
    match item {
        CopyItemView::Bad(_) => None,
        CopyItemView::Null(_) => Some(None),
        CopyItemView::Text { slot, type_oid, type_modifier, text } => match reading(
            (type_oid, type_modifier, text),
        ) {
            Ok(datum) => Some(Some(stored(datum))),
            Err(_) => None,
        },
    }
}

/// A place of a row that is stored holds what the last item for it gives.
pub proof fn a_place_holds_what_its_last_item_gives(
    row: CopyRowView,
    reading: Reading,
    p: CopyProgressView,
    i: int,
)
    requires
        row.wf(),
        p.wf(row),
        p.next <= i < row.items.len(),
        forall|j: int|
            i < j < row.items.len() ==> slot_of(#[trigger] row.items[j]) != slot_of(row.items[i]),
    ensures
        match outcome_from(row, reading, p) {
            CopyOutcomeView::Stored(datums) => datums.len() == row.width && slot_of(
                row.items[i],
            ) is Some && given(row.items[i], reading) == Some(
                datums[slot_of(row.items[i])->0],
            ),
            _ => true,
        },
    decreases row.items.len() - p.next,
{
    let item = row.items[p.next];
    assert(item.fits(row.width as int));
    match given(item, reading) {
        Some(datum) => {
            let q = p.put(slot_of(item)->0, datum);
            if p.next < i {
                a_place_holds_what_its_last_item_gives(row, reading, q, i);
            } else {
                lemma_a_place_keeps(row, reading, q, slot_of(item)->0);
            }
        },
        None => {},
    }
}

proof fn lemma_a_place_keeps(
    row: CopyRowView,
    reading: Reading,
    p: CopyProgressView,
    place: int,
)
    requires
        row.wf(),
        p.wf(row),
        0 <= place < row.width,
        forall|i: int|
            p.next <= i < row.items.len() ==> slot_of(#[trigger] row.items[i]) != Some(place),
    ensures
        match outcome_from(row, reading, p) {
            CopyOutcomeView::Stored(datums) => datums.len() == row.width && datums[place]
                == p.datums[place],
            _ => true,
        },
    decreases row.items.len() - p.next,
{
    if p.next < row.items.len() {
        let item = row.items[p.next];
        assert(slot_of(item) != Some(place));
        assert(item.fits(row.width as int));
        match given(item, reading) {
            Some(datum) => {
                lemma_a_place_keeps(row, reading, p.put(slot_of(item)->0, datum), place);
            },
            None => {},
        }
    }
}

} // verus!
