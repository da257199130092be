use germal_app::i18n::{resolve, supported, EN, JA, ZH_CN};
use germal_app::model::LanguagePref;

fn tags(list: &[&str]) -> Vec<String> {
    list.iter().map(|t| t.to_string()).collect()
}

#[test]
fn explicit_preferences_ignore_the_system() {
    assert_eq!(resolve(LanguagePref::English, &tags(&["zh-Hans-CN"])), EN);
    assert_eq!(resolve(LanguagePref::Chinese, &tags(&["en-US"])), ZH_CN);
    assert_eq!(resolve(LanguagePref::Japanese, &tags(&["zh-CN"])), JA);
}

#[test]
fn system_picks_the_first_supported_language_in_order() {
    assert_eq!(resolve(LanguagePref::System, &tags(&["fr-FR", "zh-Hant-TW", "en-US"])), ZH_CN);
    assert_eq!(resolve(LanguagePref::System, &tags(&["en-GB", "zh-CN"])), EN);
    assert_eq!(resolve(LanguagePref::System, &tags(&["ja-JP", "zh-CN"])), JA);
}

#[test]
fn japanese_system_tags_map_to_ja() {
    for tag in ["ja", "ja-JP", "ja_JP.UTF-8", "ja-Jpan-JP"] {
        assert_eq!(resolve(LanguagePref::System, &tags(&[tag])), JA, "{tag}");
    }
}

#[test]
fn simplified_and_traditional_chinese_both_map_to_zh_cn() {
    for tag in ["zh", "zh-CN", "zh-Hans-CN", "zh-TW", "zh-Hant-TW", "zh-HK", "zh_CN.UTF-8"] {
        assert_eq!(resolve(LanguagePref::System, &tags(&[tag])), ZH_CN, "{tag}");
    }
}

#[test]
fn unsupported_or_empty_system_list_falls_back_to_english() {
    assert_eq!(resolve(LanguagePref::System, &tags(&["ko-KR", "fr-FR"])), EN);
    assert_eq!(resolve(LanguagePref::System, &Vec::<String>::new()), EN);
}

#[test]
fn tags_match_by_primary_subtag_in_any_case() {
    assert_eq!(supported("EN-us"), Some(EN));
    assert_eq!(supported("Zh@calendar"), Some(ZH_CN));
    assert_eq!(supported("jav"), None);
    assert_eq!(supported(""), None);
    assert_eq!(supported("-en"), None);
}
