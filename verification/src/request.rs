//! The typed parts of a sampling request: which distribution it names, and
//! the parameters that arrive as text.
//!
//! A request names its distribution in the field `distribution`. The bytes to
//! shuffle arrive as standard base64 in the field `data`; the two ends of a
//! color range arrive as color text in the fields `from` and `to`.

use crate::b64;
use crate::b64::base64_bytes;
use crate::color::parsed;
use crate::color::Color;
use crate::color::ColorError;
use crate::sampler::SamplingRequest;
use crate::text::equals;
use vstd::prelude::*;

verus! {

/// The distributions that a request can name.
#[derive(Clone, Copy, Debug, PartialEq, Eq, Structural)]
pub enum Distribution {
    Uniform,
    Normal,
    Bernoulli,
    Shuffle,
    ColorRange,
}

/// A field of a request.
#[derive(Clone, Copy, Debug, PartialEq, Eq, Structural)]
pub enum Field {
    Distribution,
    Data,
    From,
    To,
}

/// Why a request could not be decoded.
#[derive(Clone, Debug, PartialEq, Eq)]
pub enum RequestError {
    /// The field `distribution` names no known distribution. `value` is the
    /// name as it was given.
    UnknownDistribution { value: String },
    /// The field `data` is not standard base64. `value` is the text as it was
    /// given.
    InvalidBase64 { value: String },
    /// The field `field` is not the text of a color.
    InvalidColor { field: Field, error: ColorError },
}

/// The name by which a request selects a distribution. The Bernoulli
/// distribution is selected by `bernouli`, with one `l`.
pub open spec fn tag_of(d: Distribution) -> Seq<char> {
    match d {
        Distribution::Uniform => seq!['u', 'n', 'i', 'f', 'o', 'r', 'm'],
        Distribution::Normal => seq!['n', 'o', 'r', 'm', 'a', 'l'],
        Distribution::Bernoulli => seq!['b', 'e', 'r', 'n', 'o', 'u', 'l', 'i'],
        Distribution::Shuffle => seq!['s', 'h', 'u', 'f', 'f', 'l', 'e'],
        Distribution::ColorRange => seq!['c', 'o', 'l', 'o', 'r'],
    }
}

/// The distribution that a name selects, if it selects one. Names are
/// matched exactly, letter case included.
pub open spec fn distribution_of(tag: Seq<char>) -> Option<Distribution> {
    if tag == tag_of(Distribution::Uniform) {
        Some(Distribution::Uniform)
    } else if tag == tag_of(Distribution::Normal) {
        Some(Distribution::Normal)
    } else if tag == tag_of(Distribution::Bernoulli) {
        Some(Distribution::Bernoulli)
    } else if tag == tag_of(Distribution::Shuffle) {
        Some(Distribution::Shuffle)
    } else if tag == tag_of(Distribution::ColorRange) {
        Some(Distribution::ColorRange)
    } else {
        None
    }
}

/// The name of a field, as it stands in a request.
pub open spec fn field_name(f: Field) -> Seq<char> {
    match f {
        Field::Distribution => seq!['d', 'i', 's', 't', 'r', 'i', 'b', 'u', 't', 'i', 'o', 'n'],
        Field::Data => seq!['d', 'a', 't', 'a'],
        Field::From => seq!['f', 'r', 'o', 'm'],
        Field::To => seq!['t', 'o'],
    }
}

/// The field that an error is about.
pub open spec fn field_of(e: RequestError) -> Field {
    match e {
        RequestError::UnknownDistribution { .. } => Field::Distribution,
        RequestError::InvalidBase64 { .. } => Field::Data,
        RequestError::InvalidColor { field, .. } => field,
    }
}

impl Distribution {
    /// Reads the distribution that a request names. A name that selects none
    /// is handed back unchanged inside the error.
    pub fn from_tag(tag: &str) -> (r: Result<Distribution, RequestError>)
        ensures
            match distribution_of(tag@) {
                Some(d) => r == Ok::<Distribution, RequestError>(d),
                None => r matches Err(RequestError::UnknownDistribution { value }) && value@
                    == tag@,
            },
    {
        proof {
            reveal_strlit("uniform");
            reveal_strlit("normal");
            reveal_strlit("bernouli");
            reveal_strlit("shuffle");
            reveal_strlit("color");
            assert("uniform"@ =~= tag_of(Distribution::Uniform));
            assert("normal"@ =~= tag_of(Distribution::Normal));
            assert("bernouli"@ =~= tag_of(Distribution::Bernoulli));
            assert("shuffle"@ =~= tag_of(Distribution::Shuffle));
            assert("color"@ =~= tag_of(Distribution::ColorRange));
        }
        if equals(tag, "uniform") {
            Ok(Distribution::Uniform)
        } else if equals(tag, "normal") {
            Ok(Distribution::Normal)
        } else if equals(tag, "bernouli") {
            Ok(Distribution::Bernoulli)
        } else if equals(tag, "shuffle") {
            Ok(Distribution::Shuffle)
        } else if equals(tag, "color") {
            Ok(Distribution::ColorRange)
        } else {
            Err(RequestError::UnknownDistribution { value: tag.to_owned() })
        }
    }

    /// The name by which a request selects this distribution.
    pub fn tag(self) -> (name: &'static str)
        ensures
            name@ == tag_of(self),
    {
        proof {
            reveal_strlit("uniform");
            reveal_strlit("normal");
            reveal_strlit("bernouli");
            reveal_strlit("shuffle");
            reveal_strlit("color");
        }
        let name: &'static str = match self {
            Distribution::Uniform => "uniform",
            Distribution::Normal => "normal",
            Distribution::Bernoulli => "bernouli",
            Distribution::Shuffle => "shuffle",
            Distribution::ColorRange => "color",
        };
        assert(name@ =~= tag_of(self));
        name
    }

    /// Whether the parameters of this distribution stand in the field
    /// `parameters` of the request. Those of the uniform distribution do not:
    /// its two bounds stand beside the field `distribution`.
    pub fn has_nested_parameters(self) -> (nested: bool)
        ensures
            nested == (self != Distribution::Uniform),
    {
        match self {
            Distribution::Uniform => false,
            _ => true,
        }
    }
}

impl Field {
    /// The name of the field, as it stands in a request.
    pub fn name(self) -> (name: &'static str)
        ensures
            name@ == field_name(self),
    {
        proof {
            reveal_strlit("distribution");
            reveal_strlit("data");
            reveal_strlit("from");
            reveal_strlit("to");
        }
        let name: &'static str = match self {
            Field::Distribution => "distribution",
            Field::Data => "data",
            Field::From => "from",
            Field::To => "to",
        };
        assert(name@ =~= field_name(self));
        name
    }
}

impl RequestError {
    /// The field that the error is about.
    pub fn field(&self) -> (f: Field)
        ensures
            f == field_of(*self),
    {
        match self {
            RequestError::UnknownDistribution { .. } => Field::Distribution,
            RequestError::InvalidBase64 { .. } => Field::Data,
            RequestError::InvalidColor { field, .. } => *field,
        }
    }
}

/// Exactly the five names select a distribution, each its own: reading the
/// name of a distribution gives that distribution back.
pub proof fn lemma_tag_selects_its_distribution(d: Distribution)
    ensures
        distribution_of(tag_of(d)) == Some(d),
{
    assert(tag_of(Distribution::Uniform)[0] == 'u');
    assert(tag_of(Distribution::Normal)[0] == 'n');
    assert(tag_of(Distribution::Bernoulli)[0] == 'b');
    assert(tag_of(Distribution::Shuffle)[0] == 's');
    assert(tag_of(Distribution::ColorRange)[0] == 'c');
}

/// Decodes a shuffle request from the base64 text of its bytes. Text that is
/// not standard base64 is handed back unchanged inside the error.
pub fn decode_shuffle(data: &str) -> (r: Result<SamplingRequest, RequestError>)
    ensures
        match base64_bytes(data@) {
            Some(bytes) => r matches Ok(SamplingRequest::Shuffle { data: d }) && d@ == bytes,
            None => r matches Err(RequestError::InvalidBase64 { value }) && value@ == data@,
        },
{
    match b64::decode(data) {
        Ok(bytes) => Ok(SamplingRequest::Shuffle { data: bytes }),
        Err(_) => Err(RequestError::InvalidBase64 { value: data.to_owned() }),
    }
}

/// Decodes a color-range request from the texts of its two ends. Where an
/// end is not the text of a color, the error names the field and carries the
/// error of the color; where neither is, the error is about `from`.
pub fn decode_color_range(from: &str, to: &str) -> (r: Result<SamplingRequest, RequestError>)
    ensures
        match (parsed(from@), parsed(to@)) {
            (Some(f), Some(t)) => r == Ok::<SamplingRequest, RequestError>(
                SamplingRequest::ColorRange { from: f, to: t },
            ),
            (None, _) => r matches Err(
                RequestError::InvalidColor {
                    field: Field::From,
                    error: ColorError::InvalidValue { value },
                },
            ) && value@ == from@,
            (Some(_), None) => r matches Err(
                RequestError::InvalidColor {
                    field: Field::To,
                    error: ColorError::InvalidValue { value },
                },
            ) && value@ == to@,
        },
{
    let from_color: Color = match Color::from_str(from) {
        Ok(c) => c,
        Err(error) => {
            return Err(RequestError::InvalidColor { field: Field::From, error });
        },
    };
    let to_color: Color = match Color::from_str(to) {
        Ok(c) => c,
        Err(error) => {
            return Err(RequestError::InvalidColor { field: Field::To, error });
        },
    };
    Ok(SamplingRequest::ColorRange { from: from_color, to: to_color })
}

} // verus!
