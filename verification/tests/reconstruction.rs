use deinflect::{CharSource, Deinflection, DeinflectionSource, Deinflections, Reasons, Rules};

fn push(
    deinflections: &mut Deinflections,
    replace_with: &'static str,
    replace_from_back: usize,
    source: DeinflectionSource,
) -> Deinflection {
    deinflections.push(
        source,
        replace_from_back,
        replace_with,
        Rules::empty(),
        Reasons::empty(),
    )
}

#[test]
fn deinflections_chars_rev() {
    // simple replacement
    let mut ds = Deinflections::new("abc");
    let d1 = push(&mut ds, "de", 1, DeinflectionSource::Original);
    assert_eq!("abde", ds.to_string(d1).as_str());

    // replace all
    let mut ds = Deinflections::new("abc");
    let d1 = push(&mut ds, "de", 4, DeinflectionSource::Original);
    assert_eq!("de", ds.to_string(d1).as_str());

    // carry over replacement to source
    let mut ds = Deinflections::new("abc");
    let d1 = push(&mut ds, "de", 1, DeinflectionSource::Original);
    let d2 = push(&mut ds, "f", 3, DeinflectionSource::Deinflection(d1.index()));
    assert_eq!("abde", ds.to_string(d1).as_str());
    assert_eq!("af", ds.to_string(d2).as_str());

    // carry over replacement to second last deinflection
    let mut ds = Deinflections::new("abc");
    let d1 = push(&mut ds, "de", 1, DeinflectionSource::Original);
    let d2 = push(&mut ds, "fg", 1, DeinflectionSource::Deinflection(d1.index()));
    let d3 = push(&mut ds, "h", 3, DeinflectionSource::Deinflection(d2.index()));
    assert_eq!("abde", ds.to_string(d1).as_str());
    assert_eq!("abdfg", ds.to_string(d2).as_str());
    assert_eq!("abh", ds.to_string(d3).as_str());

    // carry over replacement to second last deinflection and then source
    let mut ds = Deinflections::new("abc");
    let d1 = push(&mut ds, "de", 1, DeinflectionSource::Original);
    let d2 = push(&mut ds, "fg", 1, DeinflectionSource::Deinflection(d1.index()));
    let d3 = push(&mut ds, "h", 4, DeinflectionSource::Deinflection(d2.index()));
    assert_eq!("abde", ds.to_string(d1).as_str());
    assert_eq!("abdfg", ds.to_string(d2).as_str());
    assert_eq!("ah", ds.to_string(d3).as_str());
}

#[test]
fn chars_rev_gives_the_text_backward() {
    let mut ds = Deinflections::new("abc");
    let d1 = push(&mut ds, "de", 1, DeinflectionSource::Original);
    let d2 = push(&mut ds, "fg", 1, DeinflectionSource::Deinflection(d1.index()));
    let mut chars = ds.chars_rev(d2);
    let mut read = String::new();
    while let Some(c) = chars.next() {
        read.push(c);
    }
    assert_eq!(read, "gfdba");
    assert_eq!(chars.next(), None);
}

#[test]
fn huge_trims_do_not_overflow() {
    let mut ds = Deinflections::new("abc");
    let d1 = push(&mut ds, "de", usize::MAX, DeinflectionSource::Original);
    let d2 = push(&mut ds, "", usize::MAX, DeinflectionSource::Deinflection(d1.index()));
    let d3 = push(&mut ds, "x", usize::MAX, DeinflectionSource::Deinflection(d2.index()));
    assert_eq!(ds.to_string(d1), "de");
    assert_eq!(ds.to_string(d2), "");
    assert_eq!(ds.to_string(d3), "x");
}

#[test]
fn empty_word_and_empty_replacement() {
    let mut ds = Deinflections::new("");
    let d1 = push(&mut ds, "", 0, DeinflectionSource::Original);
    let d2 = push(&mut ds, "", 2, DeinflectionSource::Deinflection(d1.index()));
    assert_eq!(ds.to_string(d1), "");
    assert_eq!(ds.to_string(d2), "");
    assert_eq!(ds.len(), 2);
}

#[test]
fn handles_and_data() {
    let mut ds = Deinflections::new("食べた");
    let d1 = ds.push(
        DeinflectionSource::Original,
        1,
        "る",
        Rules::from_bits_retain(Rules::V1),
        Reasons::from_bits_retain(Reasons::PAST),
    );
    assert_eq!(d1.index(), 0);
    let all = ds.iter();
    assert_eq!(all.len(), 1);
    assert_eq!(all[0].index(), 0);
    let data = ds.data(d1);
    assert!(matches!(data.source, DeinflectionSource::Original));
    assert_eq!(data.rules, Rules::from_bits_retain(Rules::V1));
    assert_eq!(data.reasons, Reasons::from_bits_retain(Reasons::PAST));
    assert_eq!(data.rules().bits(), 1);
    assert_eq!(data.reasons().bits(), 1 << 21);
    assert!(matches!(data.source(), DeinflectionSource::Original));
    assert_eq!(ds.to_string(d1), "食べる");
}
