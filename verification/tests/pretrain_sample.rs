use refac::pretrain_sample::{prompt_from_json, Correctness, Sample};

#[test]
fn prompt_is_the_request_as_json_and_the_question() {
    assert_eq!(
        Sample::prompt_for("a", "capitalize"),
        "{\"original_text\":\"a\",\"transformation_instructions\":\"capitalize\"}\nimproved_text: "
    );
}

#[test]
fn prompt_escapes_what_json_escapes() {
    assert_eq!(
        Sample::prompt_for("say \"hi\"\n\\", "tab\there"),
        "{\"original_text\":\"say \\\"hi\\\"\\n\\\\\",\"transformation_instructions\":\"tab\\there\"}\nimproved_text: "
    );
}

#[test]
fn prompt_of_a_sample_ignores_result_and_verdict() {
    let sample = Sample::new("x", "y", "z", Correctness::Incorrect);
    assert_eq!(sample.prompt(), Sample::prompt_for("x", "y"));
    assert_eq!(sample.prompt(), "{\"original_text\":\"x\",\"transformation_instructions\":\"y\"}\nimproved_text: ");
}

#[test]
fn prompt_from_json_adds_the_question() {
    assert_eq!(prompt_from_json("{}".to_string()), "{}\nimproved_text: ");
    assert_eq!(prompt_from_json(String::new()), "\nimproved_text: ");
}

#[test]
fn completion_is_the_result() {
    let sample = Sample::new("x", "y", "z\n", Correctness::Correct);
    assert_eq!(sample.completion(), "z\n");
    assert_eq!(sample.result, "z\n");
}

#[test]
fn only_correct_is_correct() {
    assert!(Correctness::correct().is_correct());
    assert_eq!(Correctness::correct(), Correctness::Correct);
    assert!(Correctness::Correct.is_correct());
    assert!(!Correctness::Incorrect.is_correct());
    assert!(!Correctness::Unknown.is_correct());
    assert!(Sample::new("", "", "", Correctness::Correct).is_correct());
    assert!(!Sample::new("", "", "", Correctness::Incorrect).is_correct());
    assert!(!Sample::new("", "", "", Correctness::Unknown).is_correct());
}

#[test]
fn sample_hands_out_its_parts() {
    let sample = Sample::new("x", "y", "z", Correctness::Unknown);
    assert_eq!(sample.selected(), "x");
    assert_eq!(sample.transform(), "y");
    assert_eq!(sample.correctness(), Correctness::Unknown);
}
