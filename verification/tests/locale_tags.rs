use bulls::locale::{normalize_locale, requested_locale};
use bulls::LocalePreference;

#[test]
fn locale_normalization_handles_platform_forms_without_selecting_a_locale() {
    let cases = [
        ("pt_BR.UTF-8", "pt-BR"),
        ("ja_JP.UTF-8", "ja-JP"),
        ("de_DE", "de-DE"),
        ("zh_CN.UTF-8", "zh-CN"),
        ("zh_hans_CN@modifier", "zh-Hans-CN"),
        ("C.UTF-8", "C"),
        ("posix", "POSIX"),
    ];

    for (raw, expected) in cases {
        assert_eq!(normalize_locale(raw).as_deref(), Some(expected));
    }
    assert_eq!(normalize_locale("pt--BR"), None);
    assert_eq!(normalize_locale(""), None);
}

#[test]
fn locale_segments_keep_digits_and_reject_foreign_characters() {
    assert_eq!(normalize_locale("ES_419").as_deref(), Some("es-419"));
    assert_eq!(normalize_locale("EN-us").as_deref(), Some("en-US"));
    assert_eq!(normalize_locale("sr_LATN_rs").as_deref(), Some("sr-Latn-RS"));
    assert_eq!(normalize_locale("fr-"), None);
    assert_eq!(normalize_locale("de ch"), None);
    assert_eq!(normalize_locale("é"), None);
}

fn environment(values: &[Option<&str>]) -> Vec<Option<Vec<u8>>> {
    values.iter().map(|value| value.map(|text| text.as_bytes().to_vec())).collect()
}

#[test]
fn explicit_locale_is_requested_over_the_environment() {
    let preference = LocalePreference::explicit("pt-BR".to_owned()).expect("locale must be valid");
    let values = environment(&[Some("en_US.UTF-8"), Some("en_GB.UTF-8"), Some("en")]);

    assert_eq!(requested_locale(&preference, &values), Some("pt-BR".to_owned()));
}

#[test]
fn environment_is_read_in_order_skipping_unset_and_empty_values() {
    let automatic = LocalePreference::auto();

    assert_eq!(
        requested_locale(
            &automatic,
            &environment(&[Some("pt_BR.UTF-8"), Some("en_US.UTF-8"), Some("en")])
        ),
        Some("pt_BR.UTF-8".to_owned())
    );
    assert_eq!(
        requested_locale(
            &automatic,
            &environment(&[Some(""), Some("pt_BR.UTF-8"), Some("en_US.UTF-8")])
        ),
        Some("pt_BR.UTF-8".to_owned())
    );
    assert_eq!(
        requested_locale(&automatic, &environment(&[None, None, Some("en_GB.UTF-8")])),
        Some("en_GB.UTF-8".to_owned())
    );
    assert_eq!(requested_locale(&automatic, &environment(&[None, Some(""), None])), None);
}

#[test]
fn a_higher_value_does_not_hand_over_to_a_lower_one() {
    let automatic = LocalePreference::auto();

    assert_eq!(
        requested_locale(
            &automatic,
            &environment(&[Some("fr_FR.UTF-8"), Some("pt_BR.UTF-8"), Some("pt_BR.UTF-8")])
        ),
        Some("fr_FR.UTF-8".to_owned())
    );
    let not_text = vec![Some(vec![0xff, 0xfe]), Some(b"pt_BR.UTF-8".to_vec())];
    assert_eq!(requested_locale(&automatic, &not_text), None);
}
