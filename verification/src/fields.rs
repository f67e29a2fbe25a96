//! The formatted fields of spans.
//!
//! The fields of a span are formatted when the span is made and again when
//! values are recorded on it. The text is kept in the span's own extension
//! table, as a [`FieldText`], until the span closes, and is handed to the
//! profiler as the data of each scope of that span.

use tracing_core::span::{Attributes, Record};
use tracing_subscriber::fmt::format::{DefaultFields, FormatFields};
use tracing_subscriber::fmt::FormattedFields;
use tracing_subscriber::registry::{Extensions, ExtensionsMut};
use vstd::prelude::*;

verus! {

/// The room that a fresh text gets before the formatter writes into it.
pub const FIELD_TEXT_HINT: usize = 64;

/// `tracing_core::span::Attributes`: the fields and values that a span is made
/// with. It is only handed on to the formatter.
#[verifier::external_type_specification]
#[verifier::external_body]
pub struct ExAttributes<'a>(Attributes<'a>);

/// `tracing_core::span::Record`: values recorded on a span after it was made. It
/// is only handed on to the formatter.
#[verifier::external_type_specification]
#[verifier::external_body]
pub struct ExRecord<'a>(Record<'a>);

/// `tracing_subscriber::fmt::format::DefaultFields`: the formatter that
/// writes each field as its name, an equals sign and its value, with spaces
/// between the fields.
#[verifier::external_type_specification]
#[verifier::external_body]
pub struct ExDefaultFields(DefaultFields);

/// The view of a text that may be missing.
pub open spec fn viewed(text: Option<String>) -> Option<Seq<char>> {
    match text {
        Some(found) => Some(found@),
        None => None,
    }
}

/// `tracing_subscriber::registry::Extensions`: the extension table of one
/// span, held for reading. It keeps at most one value of each type.
#[verifier::external_type_specification]
#[verifier::external_body]
pub struct ExExtensions<'a>(Extensions<'a>);

/// `tracing_subscriber::registry::ExtensionsMut`: the extension table of one
/// span, held for writing. It keeps at most one value of each type.
#[verifier::external_type_specification]
#[verifier::external_body]
pub struct ExExtensionsMut<'a>(ExtensionsMut<'a>);

/// The formatted fields of one span, as its extension table keeps them.
pub struct FieldText {
    text: String,
}

/// The text of the [`FieldText`] that a table held for writing keeps, if it
/// keeps one.
pub uninterp spec fn kept_text(table: ExtensionsMut<'_>) -> Option<Seq<char>>;

/// The text of the [`FieldText`] that a table held for reading keeps, if it
/// keeps one.
pub uninterp spec fn shown_text(table: Extensions<'_>) -> Option<Seq<char>>;

/// `ExtensionsMut::get_mut`, asked for the [`FieldText`]: it finds the value
/// of that type where the table keeps one, and changes nothing.
#[verifier::external_body]
pub(crate) fn has_text(table: &mut ExtensionsMut<'_>) -> (found: bool)
    ensures
        found == kept_text(*old(table)) is Some,
        kept_text(*final(table)) == kept_text(*old(table)),
{
    table.get_mut::<FieldText>().is_some()
}

/// `ExtensionsMut::remove`, asked for the [`FieldText`]: it takes the value
/// of that type out of the table and hands it over, where the table keeps
/// one.
#[verifier::external_body]
pub(crate) fn take_text(table: &mut ExtensionsMut<'_>) -> (text: Option<String>)
    ensures
        viewed(text) == kept_text(*old(table)),
        kept_text(*final(table)) is None,
{
    table.remove::<FieldText>().map(|kept| kept.text)
}

/// `ExtensionsMut::insert`, with a [`FieldText`]: the table keeps it from
/// then on. It fails where the table keeps a value of that type already, so
/// such a table is left out.
#[verifier::external_body]
pub(crate) fn put_text(table: &mut ExtensionsMut<'_>, text: String)
    requires
        kept_text(*old(table)) is None,
    ensures
        kept_text(*final(table)) == Some(text@),
{
    table.insert(FieldText { text })
}

/// `Extensions::get`, asked for the [`FieldText`]: it finds the value of that
/// type where the table keeps one.
#[verifier::external_body]
pub(crate) fn show_text<'a>(table: &'a Extensions<'_>) -> (text: Option<&'a str>)
    ensures
        match text {
            Some(found) => shown_text(*table) == Some(found@),
            None => shown_text(*table) is None,
        },
{
    table.get::<FieldText>().map(|kept| kept.text.as_str())
}

/// Turns the fields of a span into text.
///
/// What a formatter makes of given fields is its own affair. Each formatter
/// says what it answers for through the three relations below, and the
/// layer's contracts hand them on; one that says nothing answers for nothing.
pub trait FieldFormatter {
    /// Whether [`FieldFormatter::add_record`] only ever adds behind the text
    /// that it is handed. A formatter that does not say so is taken not to.
    open spec fn appends(&self) -> bool {
        false
    }

    /// Whether `text` is an answer of this formatter to the fields `attrs`
    /// that a span is made with; `None` stands for a failure.
    open spec fn formats_attributes(
        &self,
        attrs: &Attributes<'_>,
        text: Option<Seq<char>>,
    ) -> bool {
        true
    }

    /// Whether `text` is an answer of this formatter to the values `values`
    /// recorded on a span that has no text; `None` stands for a failure.
    open spec fn formats_record(&self, values: &Record<'_>, text: Option<Seq<char>>) -> bool {
        true
    }

    /// Whether `text` is an answer of this formatter to the values `values`
    /// recorded on a span whose text is `current`.
    open spec fn adds_record(
        &self,
        current: Seq<char>,
        values: &Record<'_>,
        text: Seq<char>,
    ) -> bool {
        true
    }

    /// The text of the fields that a span is made with, or `None` where
    /// formatting fails.
    fn format_attributes(&self, attrs: &Attributes<'_>) -> (text: Option<String>)
        ensures
            self.formats_attributes(attrs, viewed(text)),
    ;

    /// The text of the values recorded on a span that has no text yet, or
    /// `None` where formatting fails.
    fn format_record(&self, values: &Record<'_>) -> (text: Option<String>)
        ensures
            self.formats_record(values, viewed(text)),
    ;

    /// The text `current` of a span with the recorded values added. Where
    /// formatting fails the text comes back as far as it was written.
    fn add_record(&self, current: String, values: &Record<'_>) -> (text: String)
        ensures
            self.adds_record(current@, values, text@),
            self.appends() ==> current@.is_prefix_of(text@),
    ;
}

/// Whether `text` is `current` with something added behind it, after a space
/// where `current` is not empty.
pub open spec fn added_behind(current: Seq<char>, text: Seq<char>) -> bool {
    &&& current.is_prefix_of(text)
    &&& current.len() > 0 ==> current.push(' ').is_prefix_of(text)
}

/// `DefaultFields::new` makes the formatter that `tracing_subscriber` uses
/// where none is chosen. It holds no settings.
pub assume_specification[ DefaultFields::new ]() -> DefaultFields;

/// `String::with_capacity` makes an empty text with room for `capacity`
/// bytes. It fails where the room asked for is more than `isize::MAX` bytes.
pub assume_specification[ String::with_capacity ](capacity: usize) -> (text: String)
    requires
        capacity <= isize::MAX,
    ensures
        text@ == Seq::<char>::empty(),
;

/// `FormatFields::format_fields` of `DefaultFields`, on the fields that a span
/// is made with and a writer into `text`. What is written depends on the
/// fields' values, which are opaque here, so nothing is claimed of it.
#[verifier::external_body]
fn default_format_attributes(fmt: &DefaultFields, text: String, attrs: &Attributes<'_>) -> (done:
    Option<String>) {
    let mut fields = FormattedFields::<DefaultFields>::new(text);
    match fmt.format_fields(fields.as_writer(), attrs) {
        Ok(()) => Some(fields.fields),
        Err(_) => None,
    }
}

/// `FormatFields::format_fields` of `DefaultFields`, on recorded values and a
/// writer into `text`. Nothing is claimed of what is written.
#[verifier::external_body]
fn default_format_record(fmt: &DefaultFields, text: String, values: &Record<'_>) -> (done: Option<
    String,
>) {
    let mut fields = FormattedFields::<DefaultFields>::new(text);
    match fmt.format_fields(fields.as_writer(), values) {
        Ok(()) => Some(fields.fields),
        Err(_) => None,
    }
}

/// `FormatFields::add_fields` of `DefaultFields`, which is the trait's own:
/// it pushes a space onto a text that is not empty and then formats the
/// values through a writer that appends. So the text that comes back starts
/// with the one handed in, and with the space behind it where that one was
/// not empty, also where formatting stopped on an error.
#[verifier::external_body]
fn default_add_record(fmt: &DefaultFields, current: String, values: &Record<'_>) -> (text: String)
    ensures
        added_behind(current@, text@),
{
    let mut fields = FormattedFields::<DefaultFields>::new(current);
    let _ = fmt.add_fields(&mut fields, values);
    fields.fields
}

impl FieldFormatter for DefaultFields {
    open spec fn appends(&self) -> bool {
        true
    }

    open spec fn adds_record(
        &self,
        current: Seq<char>,
        values: &Record<'_>,
        text: Seq<char>,
    ) -> bool {
        added_behind(current, text)
    }

    fn format_attributes(&self, attrs: &Attributes<'_>) -> (text: Option<String>) {
        default_format_attributes(self, String::with_capacity(FIELD_TEXT_HINT), attrs)
    }

    fn format_record(&self, values: &Record<'_>) -> (text: Option<String>) {
        default_format_record(self, String::with_capacity(FIELD_TEXT_HINT), values)
    }

    /// The default formatter adds behind the text, after a space where the
    /// text is not empty.
    fn add_record(&self, current: String, values: &Record<'_>) -> (text: String)
        ensures
            added_behind(current@, text@),
    {
        default_add_record(self, current, values)
    }
}

/// The text `text`, empty where there is none.
pub open spec fn text_or_empty(text: Option<Seq<char>>) -> Seq<char> {
    match text {
        Some(found) => found,
        None => Seq::empty(),
    }
}

/// The text that a span keeps after formatting for it came out as
/// `formatted`: that text, and the one it had where formatting failed.
pub open spec fn after_formatting(
    kept: Option<Seq<char>>,
    formatted: Option<Seq<char>>,
) -> Option<Seq<char>> {
    match formatted {
        Some(text) => Some(text),
        None => kept,
    }
}

/// The text of the span of `table`, empty where it has none.
pub fn field_text<'a>(table: &'a Extensions<'_>) -> (text: &'a str)
    ensures
        text@ == text_or_empty(shown_text(*table)),
{
    match show_text(table) {
        Some(found) => found,
        None => {
            proof {
                reveal_strlit("");
            }
            assert(""@ =~= Seq::<char>::empty());
            ""
        },
    }
}

/// Makes `text` the text of the span of `table`, in place of the one it had.
pub fn store_field_text(table: &mut ExtensionsMut<'_>, text: String)
    ensures
        kept_text(*final(table)) == Some(text@),
{
    let _ = take_text(table);
    put_text(table, text)
}

/// Keeps what formatting for the span of `table` came out as: the text where
/// there is one, in place of the one the span had; nothing where formatting
/// failed.
pub fn keep_formatted(table: &mut ExtensionsMut<'_>, formatted: Option<String>)
    ensures
        kept_text(*final(table)) == after_formatting(kept_text(*old(table)), viewed(formatted)),
{
    match formatted {
        Some(text) => store_field_text(table, text),
        None => {},
    }
}

} // verus!
