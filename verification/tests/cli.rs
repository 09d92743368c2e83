use doclayout_detector::cli::{
    output_file_name, page_batches, parse_usize, positional_args, usage_line, BatchSize,
};
use std::path::Path;

#[test]
fn native_cli_detect_rejects_batch_size_outside_supported_range() {
    let too_small = BatchSize::parse("0");
    let too_large = BatchSize::parse("5");

    assert!(too_small.is_err());
    assert!(too_large.is_err());
}

#[test]
fn cli_output_path_uses_padded_one_based_page_number() {
    assert_eq!(
        Path::new("out").join(output_file_name(7, "png")),
        Path::new("out/page-0007.png")
    );
}

#[test]
fn native_output_path_uses_padded_one_based_page_number() {
    assert_eq!(
        Path::new("out").join(output_file_name(7, "png")),
        Path::new("out/page-0007.png")
    );
}

#[test]
fn output_file_name_keeps_numbers_wider_than_four_digits() {
    assert_eq!(output_file_name(0, "json"), "page-0000.json");
    assert_eq!(output_file_name(1234, "png"), "page-1234.png");
    assert_eq!(output_file_name(98765, "png"), "page-98765.png");
    assert_eq!(output_file_name(u32::MAX, "json"), "page-4294967295.json");
}

#[test]
fn batch_size_accepts_one_to_four_with_exact_messages() {
    for value in 1..=4usize {
        assert_eq!(BatchSize::parse(&value.to_string()), Ok(value));
    }
    assert_eq!(BatchSize::parse("+2"), Ok(2));
    assert_eq!(
        BatchSize::parse("0"),
        Err("batch size must be between 1 and 4".to_string())
    );
    assert_eq!(
        BatchSize::parse("5"),
        Err("batch size must be between 1 and 4".to_string())
    );
    for value in ["two", "", "-1", "99999999999999999999999"] {
        let error = value.parse::<usize>().unwrap_err();
        assert_eq!(
            BatchSize::parse(value),
            Err(format!("batch size must be an integer: {error}"))
        );
    }
    assert_eq!(
        BatchSize::parse("two"),
        Err("batch size must be an integer: invalid digit found in string".to_string())
    );
}

#[test]
fn parse_usize_agrees_with_std() {
    for text in [
        "0", "7", "+12", "0042", "", "+", "-", "-3", "++1", "1 ", " 1", "12a", "é", "18446744073709551615",
        "18446744073709551616", "99999999999999999999x", "1844674407370955161x", "184467440737095516160",
    ] {
        let expected = text.parse::<usize>().map_err(|error| error.to_string());
        let actual = parse_usize(text).map_err(|kind| kind.message().to_string());
        assert_eq!(actual, expected, "input {text:?}");
    }
}

#[test]
fn page_batches_cut_pages_into_consecutive_ranges() {
    assert_eq!(page_batches(10, 4), Ok(vec![(0, 4), (4, 8), (8, 10)]));
    assert_eq!(page_batches(8, 4), Ok(vec![(0, 4), (4, 8)]));
    assert_eq!(page_batches(3, 1), Ok(vec![(0, 1), (1, 2), (2, 3)]));
    assert_eq!(page_batches(2, 4), Ok(vec![(0, 2)]));
    assert_eq!(page_batches(0, 3), Ok(vec![]));
    assert_eq!(
        page_batches(5, 0),
        Err("batch size must be greater than zero".to_string())
    );
}

#[test]
fn page_batches_cover_each_page_once() {
    let batches = page_batches(11, 3).unwrap();
    for page in 0..11usize {
        let holding = batches
            .iter()
            .enumerate()
            .filter(|(_, (start, end))| *start <= page && page < *end)
            .map(|(k, _)| k)
            .collect::<Vec<_>>();
        assert_eq!(holding, vec![page / 3]);
    }
}

#[test]
fn usage_line_names_the_program() {
    assert_eq!(
        usage_line("doclayout-detector"),
        "doclayout-detector <input.pdf> <output-dir> [dpi]"
    );
}

#[test]
fn positional_args_pick_input_output_and_optional_dpi() {
    let args = ["doclayout-detector", "input.pdf", "out"].map(String::from);
    let (input, output, dpi) = positional_args(&args).unwrap();
    assert_eq!(input, "input.pdf");
    assert_eq!(output, "out");
    assert_eq!(dpi, None);

    let args = ["doclayout-detector", "input.pdf", "out", "150"].map(String::from);
    let (_, _, dpi) = positional_args(&args).unwrap();
    assert_eq!(dpi.map(String::as_str), Some("150"));

    let args = ["doclayout-detector", "input.pdf"].map(String::from);
    assert!(positional_args(&args).is_none());
}
