//! Content negotiation: which of the formats on offer a client is served.

use vstd::prelude::*;
use vstd::string::*;

use crate::config::Extension;
use crate::text::{chars_of, string_of, trim, trimmed};

verus! {

/// Whether an `Accept` header is one that the `headers-accept` crate parses.
pub uninterp spec fn accept_parses(header: Seq<char>) -> bool;

/// The subtype of the media type that negotiation picks among `offered` for
/// the `Accept` header `header`; `None` where the client accepts none of them,
/// or where the header or one of the offered media types does not parse.
pub uninterp spec fn negotiated(header: Seq<char>, offered: Seq<Seq<char>>) -> Option<Seq<char>>;

/// Whether the header parses.
///
/// Trusted: `Accept::from_str` of the `headers-accept` crate, whose outcome
/// depends on the header alone.
#[verifier::external_body]
fn parses(header: &str) -> (r: bool)
    ensures
        r == accept_parses(header@),
{
    header.parse::<headers_accept::Accept>().is_ok()
}

/// Negotiates between a header and the media types on offer.
///
/// Trusted: `Accept::negotiate` of the `headers-accept` crate, on the header
/// as `Accept::from_str` parses it and the offered texts as
/// `mediatype::MediaType::parse` reads them. The pick depends on the header
/// and the offer alone. Its source sorts the ranges of the header by
/// specificity and quality, gives each offer the first range that covers it,
/// passes over offers whose range has quality zero, and picks the offer of
/// the highest quality; among equals the one whose range stands earlier, then
/// the one that is offered earlier. Handed out is the subtype of the pick.
#[verifier::external_body]
fn negotiate(header: &str, offered: &Vec<&'static str>) -> (r: Option<String>)
    ensures
        match r {
            Some(subtype) => negotiated(header@, offered@.map_values(|s: &'static str| s@)) == Some(
                subtype@,
            ),
            None => negotiated(header@, offered@.map_values(|s: &'static str| s@)) is None,
        },
{
    let accept = header.parse::<headers_accept::Accept>().ok()?;
    let parsed: Result<Vec<_>, _> =
        offered.iter().map(|t| mediatype::MediaType::parse(t)).collect();
    let available = parsed.ok()?;
    accept.negotiate(available.iter()).map(|m| m.subty.as_str().to_string())
}

/// The media types of a list of formats.
pub open spec fn media_types_of(formats: Seq<Extension>) -> Seq<Seq<char>> {
    formats.map_values(|f: Extension| f.spec_media_type())
}

/// `formats` without the first occurrence of `format`.
pub open spec fn without_first(formats: Seq<Extension>, format: Extension) -> Seq<Extension>
    decreases formats.len(),
{
    if formats.len() == 0 {
        formats
    } else if formats[0] == format {
        formats.skip(1)
    } else {
        seq![formats[0]] + without_first(formats.skip(1), format)
    }
}

/// `formats` without any occurrence of `format`.
pub open spec fn without(formats: Seq<Extension>, format: Extension) -> Seq<Extension>
    decreases formats.len(),
{
    if formats.len() == 0 {
        formats
    } else if formats.last() == format {
        without(formats.drop_last(), format)
    } else {
        without(formats.drop_last(), format).push(formats.last())
    }
}

/// Whether the client states no preference: no header, an empty one, the
/// wildcard `*/*`, or one that does not parse.
pub open spec fn no_preference(accept: Option<Seq<char>>) -> bool {
    match accept {
        None => true,
        Some(header) => trimmed(header).len() == 0 || trimmed(header) == "*/*"@ || !accept_parses(
            header,
        ),
    }
}

/// The format that negotiation picks among `offered` for `header`, if any:
/// the pick of the `headers-accept` crate, read back as one of the offered
/// formats.
pub open spec fn best(header: Seq<char>, offered: Seq<Extension>) -> Option<Extension> {
    match negotiated(header, media_types_of(offered)) {
        Some(subtype) => match Extension::spec_from_ext(subtype) {
            Some(format) => if offered.contains(format) {
                Some(format)
            } else {
                None
            },
            None => None,
        },
        None => None,
    }
}

/// The offered formats that the client accepts, the best first: the pick
/// among all, then the pick among the rest, and so on until negotiation
/// yields nothing.
pub open spec fn ranked(header: Seq<char>, offered: Seq<Extension>) -> Seq<Extension>
    decreases offered.len(),
{
    match best(header, offered) {
        Some(format) => if without_first(offered, format).len() < offered.len() {
            seq![format] + ranked(header, without_first(offered, format))
        } else {
            seq![format]
        },
        None => Seq::empty(),
    }
}

/// The order in which the offered formats are tried where the client states
/// no preference: the default format if it is on offer, then the others as
/// offered.
pub open spec fn by_default(offered: Seq<Extension>, default_format: Extension) -> Seq<Extension> {
    if offered.contains(default_format) {
        seq![default_format] + without(offered, default_format)
    } else {
        offered
    }
}

/// The order in which the offered formats are tried for a request.
pub open spec fn candidates(
    accept: Option<Seq<char>>,
    offered: Seq<Extension>,
    default_format: Extension,
) -> Seq<Extension> {
    if no_preference(accept) {
        by_default(offered, default_format)
    } else {
        ranked(accept->0, offered)
    }
}

/// Taking out an occurrence makes the list shorter by one.
pub proof fn lemma_without_first_len(formats: Seq<Extension>, format: Extension)
    ensures
        formats.contains(format) ==> without_first(formats, format).len() + 1 == formats.len(),
        !formats.contains(format) ==> without_first(formats, format) == formats,
    decreases formats.len(),
{
    if formats.len() == 0 {
    } else if formats[0] == format {
        assert(formats.contains(format));
    } else {
        let rest = formats.skip(1);
        lemma_without_first_len(rest, format);
        if formats.contains(format) {
            let i = choose|i: int| 0 <= i < formats.len() && formats[i] == format;
            assert(rest[i - 1] == format);
        } else {
            if rest.contains(format) {
                let i = choose|i: int| 0 <= i < rest.len() && rest[i] == format;
                assert(formats[i + 1] == format);
            }
            assert(seq![formats[0]] + rest =~= formats);
        }
    }
}

/// A client that sends no header, or an empty one, states no preference.
pub proof fn lemma_empty_accept_states_no_preference(header: Seq<char>)
    requires
        trimmed(header).len() == 0,
    ensures
        no_preference(Some(header)),
        no_preference(None),
{
}

/// A client that sends the wildcard `*/*`, with or without white space around
/// it, states no preference.
pub proof fn lemma_wildcard_accept_states_no_preference(header: Seq<char>)
    requires
        trimmed(header) == "*/*"@,
    ensures
        no_preference(Some(header)),
        no_preference(Some("*/*"@)),
{
    reveal_strlit("*/*");
    let wildcard = "*/*"@;
    assert(!crate::text::is_whitespace(wildcard[0]));
    assert(!crate::text::is_whitespace(wildcard.last()));
    assert(crate::text::trimmed_start(wildcard) == wildcard);
    assert(crate::text::trimmed_end(wildcard) == wildcard);
}

/// Where the client states no preference and the default format is on offer,
/// the default format is tried first.
pub proof fn lemma_no_preference_serves_default(
    accept: Option<Seq<char>>,
    offered: Seq<Extension>,
    default_format: Extension,
)
    requires
        no_preference(accept),
        offered.contains(default_format),
    ensures
        candidates(accept, offered, default_format).len() > 0,
        candidates(accept, offered, default_format)[0] == default_format,
{
}

/// Where the client states a preference and accepts none of the offered
/// formats, no format is tried.
pub proof fn lemma_nothing_acceptable(
    header: Seq<char>,
    offered: Seq<Extension>,
    default_format: Extension,
)
    requires
        !no_preference(Some(header)),
        negotiated(header, media_types_of(offered)) is None,
    ensures
        candidates(Some(header), offered, default_format) == Seq::<Extension>::empty(),
{
}

/// Whether the client states no preference.
pub fn states_no_preference(accept: Option<&str>) -> (r: bool)
    ensures
        r == no_preference(
            match accept {
                Some(header) => Some(header@),
                None => None,
            },
        ),
{
    match accept {
        None => true,
        Some(header) => {
            let stripped = trim(&chars_of(header));
            if stripped.len() == 0 {
                return true;
            }
            let wildcard = chars_of("*/*");
            if stripped.len() == wildcard.len() && crate::text::occurs_at_index(
                &stripped,
                &wildcard,
                0,
            ) {
                assert(stripped@.subrange(0, stripped@.len() as int) =~= stripped@);
                return true;
            }
            proof {
                if stripped@ == "*/*"@ {
                    assert(stripped@.subrange(0, stripped@.len() as int) =~= stripped@);
                }
            }
            !parses(header)
        },
    }
}

/// The media types of `formats`, in order.
pub fn media_types(formats: &Vec<Extension>) -> (r: Vec<&'static str>)
    ensures
        r@.map_values(|s: &'static str| s@) == media_types_of(formats@),
{
    let mut out: Vec<&'static str> = Vec::new();
    let mut i: usize = 0;
    while i < formats.len()
        invariant
            i <= formats.len(),
            out@.len() == i,
            forall|j: int| 0 <= j < i ==> (#[trigger] out@[j])@ == formats@[j].spec_media_type(),
        decreases formats.len() - i,
    {
        out.push(formats[i].to_media_type());
        i = i + 1;
    }
    assert(out@.map_values(|s: &'static str| s@) =~= media_types_of(formats@));
    out
}

/// Whether `format` is among `formats`.
pub fn contains_format(formats: &Vec<Extension>, format: Extension) -> (r: bool)
    ensures
        r == formats@.contains(format),
{
    let mut i: usize = 0;
    while i < formats.len()
        invariant
            i <= formats.len(),
            forall|j: int| 0 <= j < i ==> formats@[j] != format,
        decreases formats.len() - i,
    {
        if formats[i] == format {
            return true;
        }
        i = i + 1;
    }
    false
}

/// `formats` without the first occurrence of `format`.
pub fn remove_first(formats: &Vec<Extension>, format: Extension) -> (r: Vec<Extension>)
    ensures
        r@ == without_first(formats@, format),
{
    let mut out: Vec<Extension> = Vec::new();
    let mut i: usize = 0;
    let mut removed = false;
    assert(formats@.skip(0) == formats@);
    while i < formats.len()
        invariant
            i <= formats.len(),
            !removed ==> without_first(formats@, format) == out@ + without_first(
                formats@.skip(i as int),
                format,
            ),
            removed ==> without_first(formats@, format) == out@ + formats@.skip(i as int),
        decreases formats.len() - i,
    {
        let ghost rest = formats@.skip(i as int);
        assert(rest[0] == formats@[i as int]);
        assert(rest.skip(1) =~= formats@.skip(i + 1));
        if !removed && formats[i] == format {
            removed = true;
        } else {
            proof {
                if removed {
                    assert(out@.push(formats@[i as int]) + formats@.skip(i + 1) =~= out@ + rest);
                } else {
                    assert(out@.push(formats@[i as int]) + without_first(rest.skip(1), format)
                        =~= out@ + (seq![rest[0]] + without_first(rest.skip(1), format)));
                }
            }
            out.push(formats[i]);
        }
        i = i + 1;
    }
    assert(formats@.skip(formats.len() as int) =~= Seq::<Extension>::empty());
    assert(out@ + Seq::<Extension>::empty() =~= out@);
    out
}

/// `formats` without any occurrence of `format`.
pub fn remove_all(formats: &Vec<Extension>, format: Extension) -> (r: Vec<Extension>)
    ensures
        r@ == without(formats@, format),
{
    let mut out: Vec<Extension> = Vec::new();
    let mut i: usize = 0;
    while i < formats.len()
        invariant
            i <= formats.len(),
            out@ == without(formats@.take(i as int), format),
        decreases formats.len() - i,
    {
        assert(formats@.take(i + 1).drop_last() =~= formats@.take(i as int));
        if formats[i] != format {
            out.push(formats[i]);
        }
        i = i + 1;
    }
    assert(formats@.take(formats.len() as int) =~= formats@);
    out
}

/// The format that negotiation picks among `offered` for `header`, if any.
pub fn pick(header: &str, offered: &Vec<Extension>) -> (r: Option<Extension>)
    ensures
        r == best(header@, offered@),
{
    let names = media_types(offered);
    match negotiate(header, &names) {
        Some(subtype) => match Extension::from_ext(subtype.as_str()) {
            Some(format) => if contains_format(offered, format) {
                Some(format)
            } else {
                None
            },
            None => None,
        },
        None => None,
    }
}

/// The offered formats that the client accepts, the best first.
pub fn rank(header: &str, offered: &Vec<Extension>) -> (r: Vec<Extension>)
    ensures
        r@ == ranked(header@, offered@),
{
    let mut out: Vec<Extension> = Vec::new();
    let mut remaining: Vec<Extension> = offered.clone();
    let mut done = false;
    while !done
        invariant
            !done ==> ranked(header@, offered@) == out@ + ranked(header@, remaining@),
            done ==> ranked(header@, offered@) == out@,
        decreases remaining.len() + if done { 0int } else { 1int },
    {
        match pick(header, &remaining) {
            Some(format) => {
                let rest = remove_first(&remaining, format);
                proof {
                    lemma_without_first_len(remaining@, format);
                    assert(out@.push(format) + ranked(header@, rest@) =~= out@ + (seq![format]
                        + ranked(header@, rest@)));
                }
                out.push(format);
                remaining = rest;
            },
            None => {
                assert(out@ + Seq::<Extension>::empty() =~= out@);
                done = true;
            },
        }
    }
    out
}

/// The order in which the offered formats are tried where the client states
/// no preference.
pub fn default_order(offered: &Vec<Extension>, default_format: Extension) -> (r: Vec<Extension>)
    ensures
        r@ == by_default(offered@, default_format),
{
    if contains_format(offered, default_format) {
        let mut out: Vec<Extension> = Vec::new();
        out.push(default_format);
        let mut rest = remove_all(offered, default_format);
        out.append(&mut rest);
        out
    } else {
        offered.clone()
    }
}

/// The order in which the offered formats are tried for a request. It is a
/// function of the header, the offer and the default format alone: the same
/// question always has the same answer.
pub fn order(accept: Option<&str>, offered: &Vec<Extension>, default_format: Extension) -> (r: Vec<
    Extension,
>)
    ensures
        r@ == candidates(
            match accept {
                Some(header) => Some(header@),
                None => None,
            },
            offered@,
            default_format,
        ),
{
    if states_no_preference(accept) {
        default_order(offered, default_format)
    } else {
        match accept {
            Some(header) => rank(header, offered),
            None => Vec::new(),
        }
    }
}

} // verus!
