//! Lines of copied data, made into rows.
//!
//! A line is read into a row of items first. What a column's type makes of its
//! text only the core can tell, so the row is worked off in steps: each step says
//! which text the core has to read next, or that the row is complete, left out or
//! refused.

use vstd::prelude::*;

use crate::catalog::model::{ColumnRecord, ColumnRecordView, RelationRecord, RelationRecordView};
use crate::exec::copy;
use crate::exec::copy::{
    CopyColumn, CopyColumnView, CopyTarget, CopyTargetView, COPY_ON_ERROR_IGNORE,
};
use crate::exec::fields;
use crate::search;
use crate::text;

verus! {

/// Without the ones of a character that it ends with.
pub open spec fn without_trailing(s: Seq<char>, c: char) -> Seq<char>
    decreases s.len(),
{
    if s.len() > 0 && s.last() == c {
        without_trailing(s.drop_last(), c)
    } else {
        s
    }
}

fn cut_trailing(s: &mut Vec<char>, c: char)
    ensures
        final(s)@ == without_trailing(old(s)@, c),
{
    while s.len() > 0 && s[s.len() - 1] == c
        invariant
            without_trailing(s@, c) == without_trailing(old(s)@, c),
        decreases s.len(),
    {
        let ghost before = s@;
        s.pop();
        assert(s@ =~= before.drop_last());
    }
}

/// A line without what ends it.
pub open spec fn line_text(line: Seq<char>) -> Seq<char> {
    without_trailing(without_trailing(line, '\n'), '\r')
}

pub fn strip_line_end(line: &str) -> (r: Vec<char>)
    ensures
        r@ == line_text(line@),
{
    let mut r = text::chars_of(line);
    cut_trailing(&mut r, '\n');
    cut_trailing(&mut r, '\r');
    r
}

pub open spec fn marker_at(s: Seq<char>, i: int) -> bool {
    0 <= i && i + 1 < s.len() && s[i] == '\\' && s[i + 1] == '.'
}

/// Whether the marker for the end of the data stands anywhere in a line.
pub open spec fn has_marker(s: Seq<char>) -> bool {
    exists|i: int| #[trigger] marker_at(s, i)
}

fn finds_marker(s: &Vec<char>) -> (r: bool)
    ensures
        r == has_marker(s@),
{
    let mut i: usize = 0;
    while i < s.len()
        invariant
            i <= s.len(),
            forall|j: int| 0 <= j < i ==> !#[trigger] marker_at(s@, j),
        decreases s.len() - i,
    {
        if i < s.len() - 1 && s[i] == '\\' && s[i + 1] == '.' {
            assert(marker_at(s@, i as int));
            return true;
        }
        i += 1;
    }
    false
}

/// What a field of a line comes to: nothing that can be stored, a null, or a text
/// that the column's type has to read. A slot is a place in the row.
#[derive(Debug, PartialEq, Eq)]
pub enum CopyItem {
    Bad(String),
    Null(usize),
    Text { slot: usize, type_oid: u32, type_modifier: i32, text: String },
}

pub enum CopyItemView {
    Bad(Seq<char>),
    Null(usize),
    Text { slot: usize, type_oid: u32, type_modifier: i32, text: Seq<char> },
}

impl View for CopyItem {
    type V = CopyItemView;

    open spec fn view(&self) -> CopyItemView {
        match self {
            CopyItem::Bad(message) => CopyItemView::Bad(message@),
            CopyItem::Null(slot) => CopyItemView::Null(*slot),
            CopyItem::Text { slot, type_oid, type_modifier, text } => CopyItemView::Text {
                slot: *slot,
                type_oid: *type_oid,
                type_modifier: *type_modifier,
                text: text@,
            },
        }
    }
}

/// The items of a row, in the order of the fields, and how many places the row
/// has.
#[derive(Debug, PartialEq, Eq)]
pub struct CopyRow {
    pub width: usize,
    pub ignore_errors: bool,
    pub items: Vec<CopyItem>,
}

pub struct CopyRowView {
    pub width: usize,
    pub ignore_errors: bool,
    pub items: Seq<CopyItemView>,
}

impl View for CopyRow {
    type V = CopyRowView;

    open spec fn view(&self) -> CopyRowView {
        CopyRowView {
            width: self.width,
            ignore_errors: self.ignore_errors,
            items: search::views(self.items@),
        }
    }
}

impl CopyItemView {
    /// Whether what the item gives has a place in a row of a width.
    pub open spec fn fits(self, width: int) -> bool {
        match self {
            CopyItemView::Bad(_) => true,
            CopyItemView::Null(slot) => slot < width,
            CopyItemView::Text { slot, .. } => slot < width,
        }
    }
}

impl CopyRowView {
    /// Whether every item that gives something has its place in the row.
    pub open spec fn wf(self) -> bool {
        forall|i: int|
            0 <= i < self.items.len() ==> (#[trigger] self.items[i]).fits(self.width as int)
    }
}

/// What a line comes to: it is refused, it holds no row, or it holds one.
#[derive(Debug, PartialEq, Eq)]
pub enum CopyLine {
    Refused(String),
    Skipped,
    Row(CopyRow),
}

pub enum CopyLineView {
    Refused(Seq<char>),
    Skipped,
    Row(CopyRowView),
}

impl View for CopyLine {
    type V = CopyLineView;

    open spec fn view(&self) -> CopyLineView {
        match self {
            CopyLine::Refused(message) => CopyLineView::Refused(message@),
            CopyLine::Skipped => CopyLineView::Skipped,
            CopyLine::Row(row) => CopyLineView::Row(row@),
        }
    }
}

/// The message for a row with a number of fields that is not that of the columns.
pub open spec fn count_fault(table: Seq<char>, fields: int, columns: int) -> Seq<char> {
    "COPY row for relation \""@ + table + "\" has "@ + text::decimal_int(fields)
        + " fields but "@ + text::decimal_int(columns) + " columns"@
}

fn count_message(table: &str, fields: usize, columns: usize) -> (r: String)
    ensures
        r@ == count_fault(table@, fields as int, columns as int),
{
    let mut message = text::chars_of("COPY row for relation \"");
    text::push_text(&mut message, table);
    text::push_text(&mut message, "\" has ");
    text::push_all(&mut message, &text::format_count(fields));
    text::push_text(&mut message, " fields but ");
    text::push_all(&mut message, &text::format_count(columns));
    text::push_text(&mut message, " columns");
    text::string_of(&message)
}

/// What a field comes to for a column of a target.
pub open spec fn target_item(
    target: CopyTargetView,
    column: CopyColumnView,
    field: Option<Seq<char>>,
) -> CopyItemView {
    if column.attnum <= 0 || column.attnum > target.relation_columns {
        CopyItemView::Bad(
            "COPY column \""@ + column.name + "\" of relation \""@ + target.table
                + "\" has invalid attribute number "@ + text::decimal_int(column.attnum as int),
        )
    } else {
        let slot = (column.attnum - 1) as usize;
        match field {
            Some(text) => CopyItemView::Text {
                slot,
                type_oid: column.type_oid,
                type_modifier: column.type_modifier,
                text,
            },
            None => CopyItemView::Null(slot),
        }
    }
}

fn item_for_target(
    target: &CopyTarget,
    column: &CopyColumn,
    field: &Option<String>,
) -> (r: CopyItem)
    ensures
        r@ == target_item(target@, column@, search::option_view(*field)),
{
    if column.attnum <= 0 || column.attnum as usize > target.relation_columns {
        let mut message = text::chars_of("COPY column \"");
        text::push_text(&mut message, column.name.as_str());
        text::push_text(&mut message, "\" of relation \"");
        text::push_text(&mut message, target.table.as_str());
        text::push_text(&mut message, "\" has invalid attribute number ");
        text::push_all(&mut message, &text::format_int(column.attnum as i64));
        return CopyItem::Bad(text::string_of(&message));
    }
    let slot: usize = (column.attnum - 1) as usize;
    match field {
        Some(text) => CopyItem::Text {
            slot,
            type_oid: column.type_oid,
            type_modifier: column.type_modifier,
            text: text.clone(),
        },
        None => CopyItem::Null(slot),
    }
}

impl CopyTargetView {
    /// Whether the target says what the relation is.
    pub open spec fn is_described(self) -> bool {
        self.table_oid != 0 && self.relation_columns != 0
    }

    /// What a line comes to where the target describes the relation.
    pub open spec fn line_read(self, line: Seq<char>) -> CopyLineView {
        let s = line_text(line);
        if s == "\\."@ {
            CopyLineView::Skipped
        } else if has_marker(s) {
            CopyLineView::Refused("end-of-copy marker is not alone on its line"@)
        } else if !self.is_described() {
            CopyLineView::Refused(
                "COPY target \""@ + self.table + "\" is missing PostgreSQL catalog metadata"@,
            )
        } else {
            match self.input_fields(s) {
                Err(message) => if self.on_error == COPY_ON_ERROR_IGNORE {
                    CopyLineView::Skipped
                } else {
                    CopyLineView::Refused(message)
                },
                Ok(fields) => if fields.len() != self.column_metadata.len() {
                    CopyLineView::Refused(
                        count_fault(
                            self.table,
                            fields.len() as int,
                            self.column_metadata.len() as int,
                        ),
                    )
                } else {
                    CopyLineView::Row(
                        CopyRowView {
                            width: self.relation_columns,
                            ignore_errors: self.on_error == COPY_ON_ERROR_IGNORE,
                            items: Seq::new(
                                fields.len(),
                                |i: int| target_item(self, self.column_metadata[i], fields[i]),
                            ),
                        },
                    )
                },
            }
        }
    }
}

/// What a line comes to where the target describes the relation.
pub fn copy_text_line_postgres_catalog(target: &CopyTarget, line: &str) -> (r: CopyLine)
    ensures
        r@ == target@.line_read(line@),
        r@ is Row ==> r@->Row_0.wf(),
{
    let s = strip_line_end(line);
    if text::spells(&s, "\\.") {
        return CopyLine::Skipped;
    }
    if finds_marker(&s) {
        return CopyLine::Refused("end-of-copy marker is not alone on its line".to_owned());
    }
    if target.table_oid == 0 || target.relation_columns == 0 {
        let mut message = text::chars_of("COPY target \"");
        text::push_text(&mut message, target.table.as_str());
        text::push_text(&mut message, "\" is missing PostgreSQL catalog metadata");
        return CopyLine::Refused(text::string_of(&message));
    }
    let fields = match target.parse_input_fields(&s) {
        Ok(fields) => fields,
        Err(message) => {
            if target.on_error == COPY_ON_ERROR_IGNORE {
                return CopyLine::Skipped;
            }
            return CopyLine::Refused(message);
        },
    };
    let ghost read = copy::field_views(fields@);
    if fields.len() != target.column_metadata.len() {
        return CopyLine::Refused(
            count_message(
                target.table.as_str(),
                fields.len(),
                target.column_metadata.len(),
            ),
        );
    }
    let mut items: Vec<CopyItem> = Vec::new();
    let mut i: usize = 0;
    while i < fields.len()
        invariant
            i <= fields.len(),
            fields.len() == target.column_metadata.len(),
            read == copy::field_views(fields@),
            items@.len() == i,
            forall|j: int|
                0 <= j < i ==> (#[trigger] items@[j])@ == target_item(
                    target@,
                    target@.column_metadata[j],
                    read[j],
                ),
        decreases fields.len() - i,
    {
        assert(read[i as int] == search::option_view(fields@[i as int]));
        items.push(item_for_target(target, &target.column_metadata[i], &fields[i]));
        i += 1;
    }
    let row = CopyRow {
        width: target.relation_columns,
        ignore_errors: target.on_error == COPY_ON_ERROR_IGNORE,
        items,
    };
    assert(row@.items =~= Seq::new(
        read.len(),
        |i: int| target_item(target@, target@.column_metadata[i], read[i]),
    ));
    CopyLine::Row(row)
}

pub open spec fn has_name(name: Seq<char>) -> spec_fn(ColumnRecordView) -> bool {
    |c: ColumnRecordView| c.name == name
}

/// The places of the columns that are named, in the order of the names, or the
/// message for the first name that no column has.
pub open spec fn named_places(
    names: Seq<Seq<char>>,
    relation: RelationRecordView,
) -> Result<Seq<int>, Seq<char>>
    decreases names.len(),
{
    if names.len() == 0 {
        Ok(seq![])
    } else {
        match named_places(names.drop_last(), relation) {
            Err(message) => Err(message),
            Ok(places) => match search::first_index(
                relation.columns,
                has_name(text::lower(names.last())),
            ) {
                Some(i) => Ok(places.push(i)),
                None => Err(
                    "column \""@ + names.last() + "\" of relation \""@ + relation.name
                        + "\" does not exist"@,
                ),
            },
        }
    }
}

/// The places of the columns that a target copies into: of those that it names,
/// or of all in order.
pub open spec fn copied_places(
    target: CopyTargetView,
    relation: RelationRecordView,
) -> Result<Seq<int>, Seq<char>> {
    if target.column_names.len() == 0 {
        Ok(Seq::new(relation.columns.len(), |i: int| i))
    } else {
        named_places(target.column_names, relation)
    }
}

proof fn lemma_a_missing_name_stays(
    names: Seq<Seq<char>>,
    relation: RelationRecordView,
    n: int,
)
    requires
        0 <= n <= names.len(),
        named_places(names.take(n), relation) is Err,
    ensures
        named_places(names, relation) == named_places(names.take(n), relation),
    decreases names.len() - n,
{
    if n == names.len() {
        assert(names.take(n) =~= names);
    } else {
        assert(names.take(n + 1).drop_last() =~= names.take(n));
        lemma_a_missing_name_stays(names, relation, n + 1);
    }
}

fn column_place(columns: &Vec<ColumnRecord>, name: &Vec<char>) -> (r: Option<usize>)
    ensures
        match r {
            Some(i) => i < columns.len() && search::first_index(
                search::views(columns@),
                has_name(name@),
            ) == Some(i as int),
            None => search::first_index(search::views(columns@), has_name(name@)) is None,
        },
{
    let ghost views = search::views(columns@);
    let mut i: usize = 0;
    while i < columns.len()
        invariant
            i <= columns.len(),
            views == search::views(columns@),
            forall|j: int| 0 <= j < i ==> !has_name(name@)(#[trigger] views[j]),
        decreases columns.len() - i,
    {
        assert(views[i as int] == columns@[i as int]@);
        if text::spells(name, columns[i].name.as_str()) {
            proof {
                search::first_index_at(views, has_name(name@), i as int);
            }
            return Some(i);
        }
        i += 1;
    }
    proof {
        search::first_index_none(views, has_name(name@));
    }
    None
}

pub open spec fn place_views(places: Seq<usize>) -> Seq<int> {
    Seq::new(places.len(), |i: int| places[i] as int)
}

fn copy_places(target: &CopyTarget, relation: &RelationRecord) -> (r: Result<Vec<usize>, String>)
    ensures
        match r {
            Ok(places) => copied_places(target@, relation@) == Ok::<_, Seq<char>>(
                place_views(places@),
            ) && forall|i: int|
                0 <= i < places@.len() ==> #[trigger] places@[i] < relation.columns.len(),
            Err(message) => copied_places(target@, relation@) == Err::<Seq<int>, _>(message@),
        },
{
    let mut places: Vec<usize> = Vec::new();
    let mut i: usize = 0;
    if target.column_names.len() == 0 {
        while i < relation.columns.len()
            invariant
                i <= relation.columns.len(),
                places@.len() == i,
                forall|j: int| 0 <= j < i ==> #[trigger] places@[j] == j,
            decreases relation.columns.len() - i,
        {
            places.push(i);
            i += 1;
        }
        assert(place_views(places@) =~= Seq::new(relation@.columns.len(), |i: int| i));
        return Ok(places);
    }
    let ghost names = target@.column_names;
    assert(names.take(0) =~= seq![]);
    assert(place_views(places@) =~= seq![]);
    while i < target.column_names.len()
        invariant
            i <= target.column_names.len(),
            target.column_names.len() > 0,
            names == target@.column_names,
            named_places(names.take(i as int), relation@) == Ok::<_, Seq<char>>(
                place_views(places@),
            ),
            forall|j: int|
                0 <= j < places@.len() ==> #[trigger] places@[j] < relation.columns.len(),
        decreases target.column_names.len() - i,
    {
        let ghost before = place_views(places@);
        let name = &target.column_names[i];
        assert(names.take(i + 1).drop_last() =~= names.take(i as int));
        assert(names.take(i + 1).last() == name@);
        let wanted = text::lower_chars(&text::chars_of(name.as_str()));
        match column_place(&relation.columns, &wanted) {
            Some(place) => {
                places.push(place);
                assert(place_views(places@) =~= before.push(place as int));
            },
            None => {
                let mut message = text::chars_of("column \"");
                text::push_text(&mut message, name.as_str());
                text::push_text(&mut message, "\" of relation \"");
                text::push_text(&mut message, relation.name.as_str());
                text::push_text(&mut message, "\" does not exist");
                proof {
                    lemma_a_missing_name_stays(names, relation@, i + 1);
                }
                return Err(text::string_of(&message));
            },
        }
        i += 1;
    }
    assert(names.take(i as int) =~= names);
    Ok(places)
}

/// What a field comes to for a column of a relation.
pub open spec fn relation_item(
    relation: RelationRecordView,
    place: int,
    field: Seq<char>,
) -> CopyItemView {
    if field == "\\N"@ {
        CopyItemView::Null(place as usize)
    } else {
        CopyItemView::Text {
            slot: place as usize,
            type_oid: relation.columns[place].type_oid.0,
            type_modifier: relation.columns[place].type_mod,
            text: fields::decoded(field),
        }
    }
}

/// What a line comes to where the relation is known by the catalog.
pub open spec fn relation_line_read(
    target: CopyTargetView,
    relation: Option<RelationRecordView>,
    line: Seq<char>,
) -> CopyLineView {
    let s = line_text(line);
    if s == "\\."@ {
        CopyLineView::Skipped
    } else {
        match relation {
            None => CopyLineView::Refused(
                "relation \""@ + text::trim(target.table) + "\" does not exist"@,
            ),
            Some(relation) => match copied_places(target, relation) {
                Err(message) => CopyLineView::Refused(message),
                Ok(places) => {
                    let fields = fields::text_fields(s, '\t');
                    if fields.len() != places.len() {
                        CopyLineView::Refused(
                            count_fault(relation.name, fields.len() as int, places.len() as int),
                        )
                    } else {
                        CopyLineView::Row(
                            CopyRowView {
                                width: relation.columns.len() as usize,
                                ignore_errors: false,
                                items: Seq::new(
                                    fields.len(),
                                    |i: int| relation_item(relation, places[i], fields[i]),
                                ),
                            },
                        )
                    }
                },
            },
        }
    }
}

/// What a line comes to where the relation is known by the catalog.
pub fn copy_text_line_storage2(
    target: &CopyTarget,
    relation: &Option<RelationRecord>,
    line: &str,
) -> (r: CopyLine)
    ensures
        r@ == relation_line_read(target@, search::option_view(*relation), line@),
        r@ is Row ==> r@->Row_0.wf(),
{
    let s = strip_line_end(line);
    if text::spells(&s, "\\.") {
        return CopyLine::Skipped;
    }
    let relation = match relation {
        Some(relation) => relation,
        None => {
            let table = text::chars_of(target.table.as_str());
            let mut message = text::chars_of("relation \"");
            text::push_all(&mut message, &text::trim_chars(&table));
            text::push_text(&mut message, "\" does not exist");
            return CopyLine::Refused(text::string_of(&message));
        },
    };
    let places = match copy_places(target, relation) {
        Ok(places) => places,
        Err(message) => {
            return CopyLine::Refused(message);
        },
    };
    let fields = fields::split_copy_text_fields(&s, '\t');
    let ghost split = search::views(fields@);
    let ghost spots = place_views(places@);
    if fields.len() != places.len() {
        return CopyLine::Refused(
            count_message(relation.name.as_str(), fields.len(), places.len()),
        );
    }
    let mut items: Vec<CopyItem> = Vec::new();
    let mut i: usize = 0;
    while i < fields.len()
        invariant
            i <= fields.len(),
            fields.len() == places.len(),
            split == search::views(fields@),
            spots == place_views(places@),
            forall|j: int|
                0 <= j < places@.len() ==> #[trigger] places@[j] < relation.columns.len(),
            items@.len() == i,
            forall|j: int|
                0 <= j < i ==> (#[trigger] items@[j])@ == relation_item(
                    relation@,
                    spots[j],
                    split[j],
                ) && items@[j]@.fits(relation.columns@.len() as int),
        decreases fields.len() - i,
    {
        let place = places[i];
        assert(spots[i as int] == place);
        assert(split[i as int] == fields@[i as int]@);
        assert(relation@.columns[place as int] == relation.columns@[place as int]@);
        if text::spells(&fields[i], "\\N") {
            items.push(CopyItem::Null(place));
        } else {
            let column = &relation.columns[place];
            items.push(
                CopyItem::Text {
                    slot: place,
                    type_oid: column.type_oid.0,
                    type_modifier: column.type_mod,
                    text: text::string_of(&fields::decode_copy_text_field(&fields[i])),
                },
            );
        }
        i += 1;
    }
    let row = CopyRow { width: relation.columns.len(), ignore_errors: false, items };
    assert(row@.items =~= Seq::new(
        split.len(),
        |i: int| relation_item(relation@, spots[i], split[i]),
    ));
    CopyLine::Row(row)
}

} // verus!
