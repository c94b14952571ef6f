use vstd::prelude::*;
use crate::events::MarkupEvent;
use crate::model::ExtractError;
use quick_xml::events::Event;

verus! {

#[verifier::external_type_specification]
#[verifier::external_body]
pub struct ExBytesStart<'a>(quick_xml::events::BytesStart<'a>);

/// One raw token from the outside tokenizer: start and self-closing tags
/// still carry the tokenizer's own tag value, everything else is already
/// converted to plain values.
pub enum RawToken<'a> {
    Open(quick_xml::events::BytesStart<'a>),
    SelfClosed(quick_xml::events::BytesStart<'a>),
    Close(String),
    Text,
    Other,
}

/// What tokenizing the markup text yields: the decoded token stream, or
/// nothing where the text is not well-formed markup (an unbalanced or
/// invalid tag, a malformed or repeated attribute). The outside tokenizer
/// computes it from the text alone.
pub uninterp spec fn spec_tokens(text: Seq<char>) -> Option<Seq<MarkupEvent>>;

/// The tag name that a raw start or self-closing tag holds.
pub uninterp spec fn raw_name(e: quick_xml::events::BytesStart) -> String;

/// The decoded attributes that a raw tag holds, each name paired with its
/// unescaped value, in document order; nothing where an attribute is
/// malformed or repeated within the tag.
pub uninterp spec fn raw_attrs(e: quick_xml::events::BytesStart) -> Option<Vec<(String, String)>>;

/// The decoded token stream that a raw token list denotes: each tag's name
/// and attributes decoded; nothing where some tag's attributes are
/// malformed.
pub open spec fn spec_assemble(ts: Seq<RawToken>) -> Option<Seq<MarkupEvent>>
    decreases ts.len(),
{
    if ts.len() == 0 {
        Some(Seq::empty())
    } else {
        let head: Option<MarkupEvent> = match ts[0] {
            RawToken::Open(e) => match raw_attrs(e) {
                Some(a) => Some(MarkupEvent::Open { name: raw_name(e), attrs: a }),
                None => None,
            },
            RawToken::SelfClosed(e) => match raw_attrs(e) {
                Some(a) => Some(MarkupEvent::SelfClosed { name: raw_name(e), attrs: a }),
                None => None,
            },
            RawToken::Close(name) => Some(MarkupEvent::Close { name }),
            RawToken::Text => Some(MarkupEvent::Text),
            RawToken::Other => Some(MarkupEvent::Other),
        };
        match (head, spec_assemble(ts.skip(1))) {
            (Some(h), Some(rest)) => Some(seq![h] + rest),
            _ => None,
        }
    }
}

/// Relies on quick_xml::Reader::from_str and Reader::read_event: reads the
/// whole raw token stream of the text, or fails where the text is not
/// well-formed markup. Taken together with the decoding of each tag, the
/// stream denotes exactly the decoded tokens of the text.
#[verifier::external_body]
fn read_tokens(text: &str) -> (r: Result<Vec<RawToken>, ExtractError>)
    ensures
        r matches Ok(ts) ==> spec_tokens(text@) == spec_assemble(ts@),
        r matches Err(e) ==> e == ExtractError::MalformedMarkup && spec_tokens(text@) is None,
{
    let mut rd = quick_xml::Reader::from_str(text);
    let mut out: Vec<RawToken> = Vec::new();
    loop {
        match rd.read_event() {
            Ok(Event::Start(e)) => out.push(RawToken::Open(e)),
            Ok(Event::Empty(e)) => out.push(RawToken::SelfClosed(e)),
            Ok(Event::End(e)) => out.push(RawToken::Close(e.name().0.to_owned())),
            Ok(Event::Text(_)) => out.push(RawToken::Text),
            Ok(Event::Eof) => return Ok(out),
            Ok(_) => out.push(RawToken::Other),
            Err(_) => return Err(ExtractError::MalformedMarkup),
        }
    }
}

/// Relies on quick_xml::events::BytesStart::name: the tag's name.
#[verifier::external_body]
fn tag_name(e: &quick_xml::events::BytesStart) -> (r: String)
    ensures
        r == raw_name(*e),
{
    e.name().0.to_owned()
}

/// Relies on quick_xml::events::BytesStart::attributes and on
/// quick_xml::events::attributes::Attribute::unescape_value: the tag's
/// attributes, each name paired with its unescaped value, in document order;
/// an error where an attribute is malformed or repeated within the tag.
#[allow(deprecated)]
#[verifier::external_body]
fn tag_attrs(e: &quick_xml::events::BytesStart) -> (r: Result<Vec<(String, String)>, ExtractError>)
    ensures
        r == (match raw_attrs(*e) {
            Some(v) => Ok::<Vec<(String, String)>, ExtractError>(v),
            None => Err(ExtractError::MalformedMarkup),
        }),
{
    let mut out: Vec<(String, String)> = Vec::new();
    for a in e.attributes() {
        match a {
            Ok(at) => match at.unescape_value() {
                Ok(v) => out.push((at.key.0.to_owned(), v.into_owned())),
                Err(_) => return Err(ExtractError::MalformedMarkup),
            },
            Err(_) => return Err(ExtractError::MalformedMarkup),
        }
    }
    Ok(out)
}

/// Turns markup text into its decoded token stream: exactly the tokens of
/// the text, or the malformed-markup error where the text has none. Only
/// the outside tokenizer reads the text; this function decodes its raw
/// tokens one by one.
#[verifier::loop_isolation(false)]
pub fn tokenize(text: &str) -> (r: Result<Vec<MarkupEvent>, ExtractError>)
    ensures
        (r is Ok) == (spec_tokens(text@) is Some),
        r matches Ok(v) ==> spec_tokens(text@) == Some(v@),
        r matches Err(e) ==> e == ExtractError::MalformedMarkup,
{
    let raw = match read_tokens(text) {
        Ok(ts) => ts,
        Err(e) => {
            return Err(e);
        },
    };
    let ghost t_full = raw@;
    let mut out: Vec<MarkupEvent> = Vec::new();
    proof {
        assert(t_full.skip(0) =~= t_full);
    }
    let n = raw.len();
    let mut i: usize = 0;
    while i < n
        invariant
            i <= n,
            n == raw.len(),
            spec_assemble(t_full) == (match spec_assemble(t_full.skip(i as int)) {
                Some(rest) => Some(out@ + rest),
                None => None::<Seq<MarkupEvent>>,
            }),
        decreases n - i,
    {
        let ghost rest_toks = t_full.skip(i as int);
        let ghost out0 = out@;
        proof {
            assert(rest_toks[0] == t_full[i as int]);
            assert(rest_toks.skip(1) =~= t_full.skip(i as int + 1));
        }
        match &raw[i] {
            RawToken::Open(e) => {
                let name = tag_name(e);
                match tag_attrs(e) {
                    Ok(attrs) => out.push(MarkupEvent::Open { name, attrs }),
                    Err(er) => {
                        return Err(er);
                    },
                }
            },
            RawToken::SelfClosed(e) => {
                let name = tag_name(e);
                match tag_attrs(e) {
                    Ok(attrs) => out.push(MarkupEvent::SelfClosed { name, attrs }),
                    Err(er) => {
                        return Err(er);
                    },
                }
            },
            RawToken::Close(name) => out.push(MarkupEvent::Close { name: name.clone() }),
            RawToken::Text => out.push(MarkupEvent::Text),
            RawToken::Other => out.push(MarkupEvent::Other),
        }
        proof {
            match spec_assemble(t_full.skip(i as int + 1)) {
                Some(rest) => {
                    assert(out0 + (seq![out@.last()] + rest) =~= out@ + rest);
                },
                None => {},
            }
        }
        i += 1;
    }
    proof {
        assert(t_full.skip(n as int) =~= Seq::<RawToken>::empty());
        assert(out@ + Seq::<MarkupEvent>::empty() =~= out@);
    }
    Ok(out)
}

} // verus!
