use polymarket_mm_bot::config::BotRole;

#[test]
fn explicit_radar_role() {
    assert_eq!(BotRole::from_env_values(Some("radar"), None), BotRole::Radar);
}

#[test]
fn explicit_executor_role() {
    assert_eq!(BotRole::from_env_values(Some("executor"), None), BotRole::Executor);
}

#[test]
fn role_is_case_insensitive() {
    assert_eq!(BotRole::from_raw("RaDaR"), BotRole::Radar);
    assert_eq!(BotRole::from_raw("AP-NORTHEAST-1"), BotRole::Radar);
}

#[test]
fn tokyo_region_selects_radar() {
    assert_eq!(BotRole::from_env_values(None, Some("ap-northeast-1")), BotRole::Radar);
}

#[test]
fn dublin_region_selects_executor() {
    assert_eq!(BotRole::from_env_values(None, Some("eu-west-1")), BotRole::Executor);
}

#[test]
fn bot_role_wins_over_region() {
    assert_eq!(BotRole::from_env_values(Some("executor"), Some("ap-northeast-1")), BotRole::Executor);
    assert_eq!(BotRole::from_env_values(Some("radar"), Some("eu-west-1")), BotRole::Radar);
}

#[test]
fn unset_or_unknown_defaults_to_executor() {
    assert_eq!(BotRole::from_env_values(Some("combined"), None), BotRole::Executor);
    assert_eq!(BotRole::from_env_values(Some(""), Some("ap-northeast-1")), BotRole::Executor);
    assert_eq!(BotRole::from_raw(" radar"), BotRole::Executor);
}

#[test]
fn lowercase_name_is_exact() {
    assert_eq!(BotRole::from_lowercase_name("radar"), BotRole::Radar);
    assert_eq!(BotRole::from_lowercase_name("ap-northeast-1"), BotRole::Radar);
    assert_eq!(BotRole::from_lowercase_name("Radar"), BotRole::Executor);
    assert_eq!(BotRole::from_lowercase_name("radars"), BotRole::Executor);
}

#[test]
fn nothing_set_gives_executor() {
    assert_eq!(BotRole::from_env_values(None, None), BotRole::Executor);
}
