//! What a copy into a relation reads, and from where.

use vstd::prelude::*;

use crate::exec::fields;
use crate::search;
use crate::text;

verus! {

pub const COPY_HEADER_MATCH: i32 = -1;

pub const COPY_HEADER_FALSE: i32 = 0;

pub const COPY_FORMAT_TEXT: i32 = 0;

pub const COPY_FORMAT_CSV: i32 = 2;

pub const COPY_ON_ERROR_STOP: i32 = 0;

pub const COPY_ON_ERROR_IGNORE: i32 = 1;

/// What an error message starts with that carries several fields, a line each.
pub const COPY_ERROR_FIELDS_PREFIX: &'static str = "\x1ffastpg-copy-error-fields\n";

/// The relation that data is copied into, and how the data is written.
#[derive(Debug, PartialEq, Eq)]
pub struct CopyTarget {
    pub source_sql: String,
    pub table: String,
    pub table_oid: u32,
    pub relation_columns: usize,
    pub columns: usize,
    pub format: i32,
    pub header_line: i32,
    pub on_error: i32,
    pub freeze: bool,
    pub foreign_table: bool,
    pub partitioned_table: bool,
    pub has_insert_triggers: bool,
    pub has_generated_columns: bool,
    pub delimiter: String,
    pub null_print: String,
    pub default_print: Option<String>,
    pub column_names: Vec<String>,
    pub column_metadata: Vec<CopyColumn>,
}

/// A column that data is copied into.
#[derive(Debug, PartialEq, Eq)]
pub struct CopyColumn {
    pub name: String,
    pub attnum: i16,
    pub type_oid: u32,
    pub type_modifier: i32,
}

pub struct CopyTargetView {
    pub source_sql: Seq<char>,
    pub table: Seq<char>,
    pub table_oid: u32,
    pub relation_columns: usize,
    pub columns: usize,
    pub format: i32,
    pub header_line: i32,
    pub on_error: i32,
    pub freeze: bool,
    pub foreign_table: bool,
    pub partitioned_table: bool,
    pub has_insert_triggers: bool,
    pub has_generated_columns: bool,
    pub delimiter: Seq<char>,
    pub null_print: Seq<char>,
    pub default_print: Option<Seq<char>>,
    pub column_names: Seq<Seq<char>>,
    pub column_metadata: Seq<CopyColumnView>,
}

pub struct CopyColumnView {
    pub name: Seq<char>,
    pub attnum: i16,
    pub type_oid: u32,
    pub type_modifier: i32,
}

impl View for CopyTarget {
    type V = CopyTargetView;

    open spec fn view(&self) -> CopyTargetView {
        CopyTargetView {
            source_sql: self.source_sql@,
            table: self.table@,
            table_oid: self.table_oid,
            relation_columns: self.relation_columns,
            columns: self.columns,
            format: self.format,
            header_line: self.header_line,
            on_error: self.on_error,
            freeze: self.freeze,
            foreign_table: self.foreign_table,
            partitioned_table: self.partitioned_table,
            has_insert_triggers: self.has_insert_triggers,
            has_generated_columns: self.has_generated_columns,
            delimiter: self.delimiter@,
            null_print: self.null_print@,
            default_print: search::option_view(self.default_print),
            column_names: search::views(self.column_names@),
            column_metadata: search::views(self.column_metadata@),
        }
    }
}

impl View for CopyColumn {
    type V = CopyColumnView;

    open spec fn view(&self) -> CopyColumnView {
        CopyColumnView {
            name: self.name@,
            attnum: self.attnum,
            type_oid: self.type_oid,
            type_modifier: self.type_modifier,
        }
    }
}

impl Clone for CopyColumn {
    fn clone(&self) -> (r: Self)
        ensures
            r@ == self@,
    {
        CopyColumn {
            name: self.name.clone(),
            attnum: self.attnum,
            type_oid: self.type_oid,
            type_modifier: self.type_modifier,
        }
    }
}

/// A copy of a text, where there is one.
pub fn clone_text(s: &Option<String>) -> (r: Option<String>)
    ensures
        search::option_view(r) == search::option_view(*s),
{
    match s {
        Some(s) => Some(s.clone()),
        None => None,
    }
}

impl Clone for CopyTarget {
    fn clone(&self) -> (r: Self)
        ensures
            r@ == self@,
    {
        let column_names = self.column_names.clone();
        let column_metadata = self.column_metadata.clone();
        assert(search::views(column_names@) =~= search::views(self.column_names@));
        assert(search::views(column_metadata@) =~= search::views(self.column_metadata@));
        CopyTarget {
            source_sql: self.source_sql.clone(),
            table: self.table.clone(),
            table_oid: self.table_oid,
            relation_columns: self.relation_columns,
            columns: self.columns,
            format: self.format,
            header_line: self.header_line,
            on_error: self.on_error,
            freeze: self.freeze,
            foreign_table: self.foreign_table,
            partitioned_table: self.partitioned_table,
            has_insert_triggers: self.has_insert_triggers,
            has_generated_columns: self.has_generated_columns,
            delimiter: self.delimiter.clone(),
            null_print: self.null_print.clone(),
            default_print: clone_text(&self.default_print),
            column_names,
            column_metadata,
        }
    }
}

/// Fields that may be null, as texts.
pub open spec fn field_views(fields: Seq<Option<String>>) -> Seq<Option<Seq<char>>> {
    Seq::new(fields.len(), |i: int| search::option_view(fields[i]))
}

impl CopyTargetView {
    /// How many lines stand in front of the data.
    pub open spec fn header_lines(self) -> int {
        if self.header_line == COPY_HEADER_MATCH {
            1
        } else if self.header_line > 0 {
            self.header_line as int
        } else {
            0
        }
    }

    /// What a field as it is written stands for: null, or a text.
    pub open spec fn meant(self, field: Seq<char>) -> Option<Seq<char>> {
        if field == self.null_print {
            None
        } else if self.format == COPY_FORMAT_TEXT {
            Some(fields::decoded(field))
        } else {
            Some(field)
        }
    }

    /// The fields of a line as they are written, or why they cannot be told.
    pub open spec fn raw_fields(self, line: Seq<char>) -> Result<Seq<Seq<char>>, Seq<char>> {
        if self.format == COPY_FORMAT_CSV {
            match fields::csv_fields(line, fields::delimiter_of(self.delimiter, ',')) {
                Some(fields) => Ok(fields),
                None => Err("unterminated CSV quoted field"@),
            }
        } else if self.format == COPY_FORMAT_TEXT {
            Ok(fields::text_fields(line, fields::delimiter_of(self.delimiter, '\t')))
        } else {
            Err(
                "COPY FROM format "@ + text::decimal_int(self.format as int)
                    + " is not supported"@,
            )
        }
    }

    /// The fields of a line, or why they cannot be told.
    pub open spec fn input_fields(
        self,
        line: Seq<char>,
    ) -> Result<Seq<Option<Seq<char>>>, Seq<char>> {
        match self.raw_fields(line) {
            Ok(raw) => Ok(Seq::new(raw.len(), |i: int| self.meant(raw[i]))),
            Err(message) => Err(message),
        }
    }

    /// What is wrong with a field of a header line, if anything is.
    pub open spec fn name_fault(self, field: Option<Seq<char>>, i: int) -> Option<Seq<char>> {
        let name = self.column_metadata[i].name;
        let place = "column name mismatch in header line field "@ + text::decimal_int(i + 1);
        match field {
            Some(value) => if value == name {
                None
            } else {
                Some(place + ": got \""@ + value + "\", expected \""@ + name + "\""@)
            },
            None => Some(
                place + ": got null value (\""@ + self.null_print + "\"), expected \""@ + name
                    + "\""@,
            ),
        }
    }

    /// What is wrong with the first wrong field of a header line from a place on.
    pub open spec fn names_fault(self, fields: Seq<Option<Seq<char>>>, i: int) -> Option<
        Seq<char>,
    >
        decreases fields.len() - i,
    {
        if i < 0 || i >= fields.len() {
            None
        } else {
            match self.name_fault(fields[i], i) {
                Some(message) => Some(message),
                None => self.names_fault(fields, i + 1),
            }
        }
    }

    /// What is wrong with a header line that must hold the columns' names, if
    /// anything is.
    pub open spec fn header_fault(self, line: Seq<char>) -> Option<Seq<char>> {
        match self.input_fields(line) {
            Err(message) => Some(message),
            Ok(fields) => if fields.len() != self.column_metadata.len() {
                Some(
                    "wrong number of fields in header line: got "@ + text::decimal_int(
                        fields.len() as int,
                    ) + ", expected "@ + text::decimal_int(self.column_metadata.len() as int),
                )
            } else {
                self.names_fault(fields, 0)
            },
        }
    }
}

/// Whether the outcome of a check is as told: nothing wrong, or this message.
pub open spec fn reports(r: Result<(), String>, fault: Option<Seq<char>>) -> bool {
    match r {
        Ok(_) => fault is None,
        Err(message) => fault == Some(message@),
    }
}

impl CopyTarget {
    /// How many lines stand in front of the data.
    pub fn header_lines_to_skip(&self) -> (r: usize)
        ensures
            r == self@.header_lines(),
    {
        if self.header_line == COPY_HEADER_FALSE {
            0
        } else if self.header_line == COPY_HEADER_MATCH {
            1
        } else if self.header_line > 0 {
            self.header_line as usize
        } else {
            0
        }
    }

    /// The fields of a line, or why they cannot be told.
    pub fn parse_input_fields(&self, line: &Vec<char>) -> (r: Result<
        Vec<Option<String>>,
        String,
    >)
        ensures
            match r {
                Ok(fields) => self@.input_fields(line@) == Ok::<_, Seq<char>>(
                    field_views(fields@),
                ),
                Err(message) => self@.input_fields(line@) == Err::<Seq<Option<Seq<char>>>, _>(
                    message@,
                ),
            },
    {
        let raw = if self.format == COPY_FORMAT_CSV {
            let delimiter = fields::delimiter_char(self.delimiter.as_str(), ',');
            match fields::parse_copy_csv_fields(line, delimiter) {
                Some(raw) => raw,
                None => {
                    return Err("unterminated CSV quoted field".to_owned());
                },
            }
        } else if self.format == COPY_FORMAT_TEXT {
            let delimiter = fields::delimiter_char(self.delimiter.as_str(), '\t');
            fields::split_copy_text_fields(line, delimiter)
        } else {
            let mut message = text::chars_of("COPY FROM format ");
            text::push_all(&mut message, &text::format_int(self.format as i64));
            text::push_text(&mut message, " is not supported");
            return Err(text::string_of(&message));
        };
        let ghost whole = search::views(raw@);
        let null_print = text::chars_of(self.null_print.as_str());
        let mut fields: Vec<Option<String>> = Vec::new();
        let mut i: usize = 0;
        while i < raw.len()
            invariant
                i <= raw.len(),
                whole == search::views(raw@),
                null_print@ == self@.null_print,
                fields@.len() == i,
                forall|j: int|
                    0 <= j < i ==> search::option_view(#[trigger] fields@[j]) == self@.meant(
                        whole[j],
                    ),
            decreases raw.len() - i,
        {
            assert(whole[i as int] == raw@[i as int]@);
            if text::same_chars(&raw[i], &null_print) {
                fields.push(None);
            } else if self.format == COPY_FORMAT_TEXT {
                fields.push(Some(text::string_of(&fields::decode_copy_text_field(&raw[i]))));
            } else {
                fields.push(Some(text::string_of(&raw[i])));
            }
            i += 1;
        }
        assert(field_views(fields@) =~= Seq::new(whole.len(), |i: int| self@.meant(whole[i])));
        Ok(fields)
    }

    /// Whether a header line holds the names of the columns.
    pub fn validate_header_line(&self, line: &str) -> (r: Result<(), String>)
        ensures
            reports(r, self@.header_fault(line@)),
    {
        let fields = match self.parse_input_fields(&text::chars_of(line)) {
            Ok(fields) => fields,
            Err(message) => {
                return Err(message);
            },
        };
        let ghost views = field_views(fields@);
        if fields.len() != self.column_metadata.len() {
            let mut message = text::chars_of("wrong number of fields in header line: got ");
            text::push_all(&mut message, &text::format_count(fields.len()));
            text::push_text(&mut message, ", expected ");
            text::push_all(&mut message, &text::format_count(self.column_metadata.len()));
            return Err(text::string_of(&message));
        }
        let mut i: usize = 0;
        while i < fields.len()
            invariant
                i <= fields.len(),
                fields.len() == self.column_metadata.len(),
                views == field_views(fields@),
                self@.input_fields(line@) == Ok::<_, Seq<char>>(views),
                self@.names_fault(views, 0) == self@.names_fault(views, i as int),
            decreases fields.len() - i,
        {
            let column = &self.column_metadata[i];
            assert(self@.column_metadata[i as int] == column@);
            assert(views[i as int] == search::option_view(fields@[i as int]));
            let fine = match &fields[i] {
                Some(value) => text::same_text(value.as_str(), column.name.as_str()),
                None => false,
            };
            if !fine {
                let mut message = text::chars_of("column name mismatch in header line field ");
                text::push_all(&mut message, &text::format_count(i + 1));
                match &fields[i] {
                    Some(value) => {
                        text::push_text(&mut message, ": got \"");
                        text::push_text(&mut message, value.as_str());
                        text::push_text(&mut message, "\", expected \"");
                    },
                    None => {
                        text::push_text(&mut message, ": got null value (\"");
                        text::push_text(&mut message, self.null_print.as_str());
                        text::push_text(&mut message, "\"), expected \"");
                    },
                }
                text::push_text(&mut message, column.name.as_str());
                text::push_text(&mut message, "\"");
                return Err(text::string_of(&message));
            }
            i += 1;
        }
        Ok(())
    }
}

impl CopyTargetView {
    pub open spec fn names(self) -> Seq<Seq<char>> {
        Seq::new(self.column_metadata.len(), |i: int| self.column_metadata[i].name)
    }

    /// Each field as it is written in the text format.
    pub open spec fn encoded_names(self) -> Seq<Seq<char>> {
        Seq::new(self.column_metadata.len(), |i: int| fields::encoded(self.names()[i]))
    }
}

proof fn lemma_right_names_have_no_fault(t: CopyTargetView, read: Seq<Option<Seq<char>>>, i: int)
    requires
        0 <= i <= read.len(),
        read.len() == t.column_metadata.len(),
        forall|j: int|
            0 <= j < read.len() ==> #[trigger] read[j] == Some(t.column_metadata[j].name),
    ensures
        t.names_fault(read, i) is None,
    decreases read.len() - i,
{
    if i < read.len() {
        assert(read[i] == Some(t.column_metadata[i].name));
        lemma_right_names_have_no_fault(t, read, i + 1);
    }
}

/// A header in the CSV format with the columns' names between quotes is accepted,
/// unless a name is written like a null.
pub proof fn a_csv_header_of_the_names_is_accepted(t: CopyTargetView)
    requires
        t.format == COPY_FORMAT_CSV,
        t.column_metadata.len() > 0,
        fields::delimiter_of(t.delimiter, ',') != '"',
        forall|i: int|
            0 <= i < t.column_metadata.len() ==> (#[trigger] t.column_metadata[i]).name
                != t.null_print,
    ensures
        t.header_fault(fields::csv_line(t.names(), fields::delimiter_of(t.delimiter, ',')))
            is None,
{
    let delimiter = fields::delimiter_of(t.delimiter, ',');
    let line = fields::csv_line(t.names(), delimiter);
    fields::quoted_csv_fields_are_read_back(t.names(), delimiter);
    let read = t.input_fields(line)->Ok_0;
    assert forall|j: int| 0 <= j < read.len() implies #[trigger] read[j] == Some(
        t.column_metadata[j].name,
    ) by {
        assert(t.column_metadata[j].name != t.null_print);
    }
    lemma_right_names_have_no_fault(t, read, 0);
}

/// A header in the text format with the columns' names is accepted, unless a name
/// is written like a null or, with its escapes, holds the delimiter.
pub proof fn a_text_header_of_the_names_is_accepted(t: CopyTargetView)
    requires
        t.format == COPY_FORMAT_TEXT,
        t.column_metadata.len() > 0,
        forall|i: int|
            0 <= i < t.column_metadata.len() ==> {
                &&& (#[trigger] t.encoded_names()[i]) != t.null_print
                &&& !t.encoded_names()[i].contains(fields::delimiter_of(t.delimiter, '\t'))
            },
    ensures
        t.header_fault(
            text::joined(t.encoded_names(), seq![fields::delimiter_of(t.delimiter, '\t')]),
        ) is None,
{
    let delimiter = fields::delimiter_of(t.delimiter, '\t');
    let line = text::joined(t.encoded_names(), seq![delimiter]);
    fields::joined_fields_are_split_again(t.encoded_names(), delimiter);
    let read = t.input_fields(line)->Ok_0;
    assert forall|j: int| 0 <= j < read.len() implies #[trigger] read[j] == Some(
        t.column_metadata[j].name,
    ) by {
        assert(t.encoded_names()[j] != t.null_print);
        fields::decoding_undoes_encoding(t.names()[j]);
    }
    lemma_right_names_have_no_fault(t, read, 0);
}

} // verus!
