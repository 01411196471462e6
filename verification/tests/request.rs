use sampling::color::Color;
use sampling::color::ColorError;
use sampling::request::decode_color_range;
use sampling::request::decode_shuffle;
use sampling::request::Distribution;
use sampling::request::Field;
use sampling::request::RequestError;
use sampling::sampler::SamplingRequest;

const ALL: [Distribution; 5] = [
    Distribution::Uniform,
    Distribution::Normal,
    Distribution::Bernoulli,
    Distribution::Shuffle,
    Distribution::ColorRange,
];

#[test]
fn reads_the_five_distributions() {
    assert_eq!(Distribution::from_tag("uniform"), Ok(Distribution::Uniform));
    assert_eq!(Distribution::from_tag("normal"), Ok(Distribution::Normal));
    assert_eq!(Distribution::from_tag("bernouli"), Ok(Distribution::Bernoulli));
    assert_eq!(Distribution::from_tag("shuffle"), Ok(Distribution::Shuffle));
    assert_eq!(Distribution::from_tag("color"), Ok(Distribution::ColorRange));
}

#[test]
fn an_unknown_distribution_is_an_error() {
    assert_eq!(
        Distribution::from_tag("bogus"),
        Err(RequestError::UnknownDistribution { value: "bogus".to_string() })
    );
    let e = Distribution::from_tag("bogus").unwrap_err();
    assert_eq!(e.field(), Field::Distribution);
    assert_eq!(e.field().name(), "distribution");
}

#[test]
fn distribution_names_are_matched_exactly() {
    for tag in ["bernoulli", "Uniform", "NORMAL", "", "uniform ", "colour", "color_range", "shuffl", "normal\n"] {
        assert_eq!(
            Distribution::from_tag(tag),
            Err(RequestError::UnknownDistribution { value: tag.to_string() })
        );
    }
}

#[test]
fn every_distribution_is_read_back_from_its_name() {
    for d in ALL {
        assert_eq!(Distribution::from_tag(d.tag()), Ok(d));
    }
    assert_eq!(Distribution::Bernoulli.tag(), "bernouli");
    assert_eq!(Distribution::ColorRange.tag(), "color");
}

#[test]
fn only_the_uniform_parameters_are_not_nested() {
    assert!(!Distribution::Uniform.has_nested_parameters());
    assert!(Distribution::Normal.has_nested_parameters());
    assert!(Distribution::Bernoulli.has_nested_parameters());
    assert!(Distribution::Shuffle.has_nested_parameters());
    assert!(Distribution::ColorRange.has_nested_parameters());
}

#[test]
fn field_names() {
    assert_eq!(Field::Distribution.name(), "distribution");
    assert_eq!(Field::Data.name(), "data");
    assert_eq!(Field::From.name(), "from");
    assert_eq!(Field::To.name(), "to");
}

#[test]
fn shuffle_data_is_read_from_base64() {
    assert_eq!(decode_shuffle("AQID"), Ok(SamplingRequest::Shuffle { data: vec![1, 2, 3] }));
    assert_eq!(decode_shuffle("AQIDBAU="), Ok(SamplingRequest::Shuffle { data: vec![1, 2, 3, 4, 5] }));
    assert_eq!(decode_shuffle(""), Ok(SamplingRequest::Shuffle { data: vec![] }));
    assert_eq!(decode_shuffle("////"), Ok(SamplingRequest::Shuffle { data: vec![255, 255, 255] }));
}

#[test]
fn shuffle_data_that_is_no_base64_is_an_error() {
    for text in ["!!!", "AQI", "AQID=", "A", "AQ ID", "AQID\n", "-_-_"] {
        let r = decode_shuffle(text);
        assert_eq!(r, Err(RequestError::InvalidBase64 { value: text.to_string() }));
        assert_eq!(r.unwrap_err().field(), Field::Data);
    }
}

#[test]
fn color_range_is_read_from_two_colors() {
    assert_eq!(
        decode_color_range("black", "white"),
        Ok(SamplingRequest::ColorRange {
            from: Color { red: 0, green: 0, blue: 0 },
            to: Color { red: 255, green: 255, blue: 255 },
        })
    );
    assert_eq!(
        decode_color_range("#0a0b0c", "#F0E0D0"),
        Ok(SamplingRequest::ColorRange {
            from: Color { red: 10, green: 11, blue: 12 },
            to: Color { red: 240, green: 224, blue: 208 },
        })
    );
}

#[test]
fn a_bad_end_of_a_color_range_is_named() {
    let from_bad = decode_color_range("#GGGGGG", "white");
    assert_eq!(
        from_bad,
        Err(RequestError::InvalidColor {
            field: Field::From,
            error: ColorError::InvalidValue { value: "#GGGGGG".to_string() },
        })
    );
    assert_eq!(from_bad.unwrap_err().field().name(), "from");
    let to_bad = decode_color_range("white", "grey");
    assert_eq!(
        to_bad,
        Err(RequestError::InvalidColor {
            field: Field::To,
            error: ColorError::InvalidValue { value: "grey".to_string() },
        })
    );
    assert_eq!(to_bad.unwrap_err().field().name(), "to");
    assert_eq!(
        decode_color_range("x", "y"),
        Err(RequestError::InvalidColor {
            field: Field::From,
            error: ColorError::InvalidValue { value: "x".to_string() },
        })
    );
}
