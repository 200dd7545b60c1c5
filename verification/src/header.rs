//! The part of a decoded replay header that the engine reads, and the call
//! into the replay decoder that produces it.

use boxcars::HeaderProp;
use boxcars::ParseError;
use boxcars::ParserBuilder;
use vstd::prelude::*;

verus! {

/// A value inside one row of a statistics table.
#[derive(Debug)]
pub enum StatValue {
    /// A 32-bit signed integer.
    Int(i32),
    /// A string.
    Text(String),
    /// A value of any other type.
    Other,
}

/// The value of a top-level header property.
#[derive(Debug)]
pub enum HeaderValue {
    /// A 32-bit signed integer.
    Int(i32),
    /// A table: rows of key/value pairs.
    Rows(Vec<Vec<(String, StatValue)>>),
    /// A value of any other type.
    Other,
}

/// The mathematical value of a [`StatValue`].
pub enum StatValueView {
    Int(i32),
    Text(Seq<char>),
    Other,
}

/// The mathematical value of a [`HeaderValue`].
pub enum HeaderValueView {
    Int(i32),
    Rows(Seq<Seq<(Seq<char>, StatValueView)>>),
    Other,
}

impl DeepView for StatValue {
    type V = StatValueView;

    open spec fn deep_view(&self) -> StatValueView {
        match self {
            StatValue::Int(v) => StatValueView::Int(*v),
            StatValue::Text(s) => StatValueView::Text(s@),
            StatValue::Other => StatValueView::Other,
        }
    }
}

impl DeepView for HeaderValue {
    type V = HeaderValueView;

    open spec fn deep_view(&self) -> HeaderValueView {
        match self {
            HeaderValue::Int(v) => HeaderValueView::Int(*v),
            HeaderValue::Rows(rows) => HeaderValueView::Rows(rows.deep_view()),
            HeaderValue::Other => HeaderValueView::Other,
        }
    }
}

/// The decoder's error, `boxcars::ParseError`: carried through unread.
#[verifier::external_type_specification]
#[verifier::external_body]
pub struct ExParseError(ParseError);

/// The header properties that the replay decoder reads out of a file's
/// bytes, in the order in which the file holds them: `None` where the decoder
/// rejects the bytes.
pub uninterp spec fn decoded_header(data: Seq<u8>) -> Option<Seq<(Seq<char>, HeaderValueView)>>;

/// Decodes a replay's header with `boxcars::ParserBuilder::parse`, network
/// data left unparsed, and hands out the decoded `properties`.
///
/// Not proved: that the outcome is [`decoded_header`] of the bytes, that is,
/// that the decoder gives the same outcome for the same bytes; and that it
/// returns at all (it recurses once per nested table, so its stack bounds
/// the nesting that it can take). An `Int` and a `Str` keep their payload,
/// an `Array` keeps its rows, keys and order; every other kind of value, a
/// `Name` among them, is handed out as `Other`.
#[verifier::external_body]
pub(crate) fn decode_header(data: &[u8]) -> (decoded: Result<Vec<(String, HeaderValue)>, ParseError>)
    ensures
        match decoded {
            Ok(props) => decoded_header(data@) == Some(props.deep_view()),
            Err(_) => decoded_header(data@) is None,
        },
{
    let replay = ParserBuilder::new(data).never_parse_network_data().parse()?;
    Ok(replay.properties.into_iter().map(|(key, prop)| (key, match prop {
        HeaderProp::Int(v) => HeaderValue::Int(v),
        HeaderProp::Array(rows) => HeaderValue::Rows(rows.into_iter().map(|row| {
            row.into_iter().map(|(k, value)| (k, match value {
                HeaderProp::Int(v) => StatValue::Int(v),
                HeaderProp::Str(s) => StatValue::Text(s),
                _ => StatValue::Other,
            })).collect()
        }).collect()),
        _ => HeaderValue::Other,
    })).collect())
}

} // verus!
