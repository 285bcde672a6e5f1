use audiohit::naming::{
    chain_file_name, converted_file_path, decimal_string, folder_output_path, reference_file_name,
    scale_file_name, scale_folder, signed_decimal_string, sine_file_name, trimmed_file_name,
    two_digit_string,
};
use audiohit::folder::{create_output_folder, output_folder_from_parent};

#[test]
fn decimal_forms() {
    assert_eq!(decimal_string(0), "0");
    assert_eq!(decimal_string(7), "7");
    assert_eq!(decimal_string(44100), "44100");
    assert_eq!(decimal_string(u64::MAX), u64::MAX.to_string());
    assert_eq!(signed_decimal_string(-1200), "-1200");
    assert_eq!(signed_decimal_string(i64::MIN), i64::MIN.to_string());
    assert_eq!(signed_decimal_string(300), "300");
    assert_eq!(two_digit_string(3), "03");
    assert_eq!(two_digit_string(12), "12");
    assert_eq!(two_digit_string(123), "123");
}

#[test]
fn trimmed_file_names() {
    assert_eq!(trimmed_file_name("kick", false, 0), "kick.wav");
    assert_eq!(trimmed_file_name("kick", true, 0), "kick_1.wav");
    assert_eq!(trimmed_file_name("kick", true, 11), "kick_12.wav");
}

#[test]
fn scale_and_reference_names() {
    assert_eq!(scale_folder("d/output/", "bass"), "d/output/bass_scale");
    assert_eq!(scale_file_name("d/output/bass_scale", "bass", 1), "d/output/bass_scale/bass_01.wav");
    assert_eq!(scale_file_name("f", "bass", 12), "f/bass_12.wav");
    assert_eq!(reference_file_name("d/output/", "bass"), "d/output/bass_ref.wav");
    assert_eq!(sine_file_name("d/output/", "bass"), "d/output/bass_sine.wav");
}

#[test]
fn folder_names() {
    assert_eq!(folder_output_path("samples/drums"), "samples/drums/output/");
    assert_eq!(converted_file_path("samples/output/", "a.wav"), "samples/output/a.wav");
    assert_eq!(chain_file_name("drums", 0, 1), "drums");
    assert_eq!(chain_file_name("drums", 0, 3), "drums_1");
    assert_eq!(chain_file_name("drums", 2, 3), "drums_3");
}

#[test]
fn output_folder_is_next_to_the_file() {
    assert_eq!(create_output_folder("samples/drums/kick.wav"), Some("samples/drums/output/".to_string()));
    assert_eq!(create_output_folder("/tmp/a.wav"), Some("/tmp/output/".to_string()));
    // a bare file name has the empty parent: the output folder is in the working folder
    assert_eq!(create_output_folder("kick.wav"), Some("output/".to_string()));
    assert_eq!(create_output_folder("/"), None);
    assert_eq!(create_output_folder(""), None);
}

#[test]
fn output_folder_from_parent_folder() {
    assert_eq!(output_folder_from_parent("samples/drums"), "samples/drums/output/");
    assert_eq!(output_folder_from_parent(""), "output/");
}
