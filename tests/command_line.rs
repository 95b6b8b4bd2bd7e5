use pass_migrate::args::{
    answer_confirms, lowered_answer_confirms, parse_input_path, parse_output_path, unwrap_path,
    ArgError,
};

#[test]
fn input_path_must_exist() {
    assert_eq!(parse_input_path("in.csv", true), Ok("in.csv".to_string()));
    assert_eq!(parse_input_path("in.csv", false), Err(ArgError::InputMissing));
}

#[test]
fn output_path_is_taken_as_is() {
    assert_eq!(parse_output_path("out/dir/x.csv"), Ok("out/dir/x.csv".to_string()));
}

#[test]
fn writing_requires_an_output_path() {
    assert_eq!(unwrap_path(&None), Err(ArgError::OutputRequired));
    let p = Some("o.csv".to_string());
    assert_eq!(unwrap_path(&p), Ok(&"o.csv".to_string()));
}

#[test]
fn only_n_declines_an_overwrite() {
    assert!(!answer_confirms("n"));
    assert!(!answer_confirms(" N \n"));
    assert!(answer_confirms("y"));
    assert!(answer_confirms("Y\n"));
    assert!(answer_confirms(""));
    assert!(answer_confirms("no"));
    assert!(!lowered_answer_confirms("n"));
    assert!(lowered_answer_confirms("x"));
}
