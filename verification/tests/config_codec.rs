use slack_r::api::{
    display_name_of, DeleteScheduledMessageRequest, ScheduleMessageRequest,
    ScheduledMessageObjectRaw, SlackApiContent, SlackApiResponse,
};
use slack_r::api::{MessageResponse, ScheduleMessageResponseRaw};
use slack_r::clock::{schedule_message_response_from_raw, scheduled_message_from_raw};
use slack_r::config::BotConfig;
use slack_r::codec::{decode_config, encode_config};
use slack_r::datetime::TimeOfDay;
use slack_r::dates::validate_email;
use slack_r::plan::{joke_message_text, reroll_message_text};

fn sample_config() -> BotConfig {
    BotConfig {
        members: vec!["U023BECGF".to_string(), "W012A3CDE".to_string()],
        selected: vec!["U023BECGF".to_string()],
        channel: "C061EG9SL".to_string(),
        target_time: TimeOfDay::new(11, 30, 0),
        advance_days: 2,
        post_time: TimeOfDay::new(9, 15, 30),
        instant_delay: 45,
        token: Some("tok\"en\\x".to_string()),
        id: "B19LU7CSY".to_string(),
    }
}

fn assert_configs_equal(a: &BotConfig, b: &BotConfig) {
    assert_eq!(a.members, b.members);
    assert_eq!(a.selected, b.selected);
    assert_eq!(a.channel, b.channel);
    assert_eq!(a.target_time, b.target_time);
    assert_eq!(a.advance_days, b.advance_days);
    assert_eq!(a.post_time, b.post_time);
    assert_eq!(a.instant_delay, b.instant_delay);
    assert_eq!(a.token, b.token);
    assert_eq!(a.id, b.id);
}

// Encoding then decoding the persisted JSON form yields an identical
// configuration, field for field.
#[test]
fn config_json_round_trip() {
    let config = sample_config();
    let text = encode_config(&config);
    let back = decode_config(&text).unwrap();
    assert_configs_equal(&config, &back);
}

#[test]
fn config_json_round_trip_default() {
    let config = BotConfig::default();
    let text = encode_config(&config);
    assert_eq!(
        text,
        "{\"members\":[],\"selected\":[],\"channel\":\"\",\"target_time\":\"11:30:00\",\
         \"advance_days\":1,\"post_time\":\"11:30:00\",\"instant_delay\":45,\
         \"token\":null,\"id\":\"\"}"
    );
    let back = decode_config(&text).unwrap();
    assert_configs_equal(&config, &back);
}

#[test]
fn config_json_round_trip_unicode() {
    let mut config = sample_config();
    config.channel = "général — caffè".to_string();
    config.members.push("Ω user".to_string());
    let text = encode_config(&config);
    let back = decode_config(&text).unwrap();
    assert_configs_equal(&config, &back);
}

#[test]
fn decode_rejects_corrupt_text() {
    assert!(decode_config("").is_none());
    assert!(decode_config("{}").is_none());
    assert!(decode_config("{\"members\":[]").is_none());
    let config = sample_config();
    let mut text = encode_config(&config);
    text.push('x');
    assert!(decode_config(&text).is_none());
}

#[test]
fn merge_members_filters_own_id_and_known() {
    let mut config = sample_config();
    config.merge_members(vec![
        "U023BECGF".to_string(),
        "B19LU7CSY".to_string(),
        "W999".to_string(),
        "W999".to_string(),
    ]);
    assert_eq!(
        config.members,
        vec![
            "U023BECGF".to_string(),
            "W012A3CDE".to_string(),
            "W999".to_string(),
            "W999".to_string(),
        ]
    );
    assert_eq!(config.channel, "C061EG9SL");
}

#[test]
fn email_validation() {
    assert!(validate_email("spengler@ghostbusters.example.com".to_string()).is_ok());
    assert_eq!(
        validate_email("not-an-email".to_string()).unwrap_err(),
        "Not an email"
    );
    assert!(validate_email("a@b".to_string()).is_err());
    assert!(validate_email("a@b.c".to_string()).is_ok());
}

#[test]
fn message_texts() {
    assert_eq!(
        joke_message_text("W012A3CDE", "2021-12-31"),
        "<@W012A3CDE> will be in charge of a joke on 2021-12-31!"
    );
    assert_eq!(
        reroll_message_text("W012A3CDE", "2022-01-03"),
        "Reroll: <@W012A3CDE> will be in charge of a joke on 2022-01-03!"
    );
}

#[test]
fn scheduled_message_conversion_keeps_fields() {
    let raw = ScheduledMessageObjectRaw {
        channel_id: "C1H9RESGL".to_string(),
        date_created: 1551891734,
        id: "1298393284".to_string(),
        post_at: 1606965300,
        text: "Here's a message for you in the future".to_string(),
    };
    let obj = scheduled_message_from_raw(&raw).unwrap();
    assert_eq!(obj.id, "1298393284");
    assert_eq!(obj.channel_id, "C1H9RESGL");
    assert_eq!(obj.text, "Here's a message for you in the future");
    assert!(obj.post_at.secs < 86400);
}

#[test]
fn schedule_response_conversion_keeps_fields() {
    let raw = ScheduleMessageResponseRaw {
        channel: "C1H9RESGL".to_string(),
        scheduled_message_id: "Q1298393284".to_string(),
        post_at: 1562180400,
        message: MessageResponse {
            text: "Here's a message for you in the future".to_string(),
            user: "ecto1".to_string(),
            team: None,
            bot_id: Some("B19LU7CSY".to_string()),
            type_: "delayed_message".to_string(),
            bot_profile: None,
            attachements: None,
        },
    };
    let resp = schedule_message_response_from_raw(raw).unwrap();
    assert_eq!(resp.channel, "C1H9RESGL");
    assert_eq!(resp.scheduled_message_id, "Q1298393284");
    assert!(resp.post_at.secs < 86400);
    assert_eq!(resp.message.text, "Here's a message for you in the future");
}

#[test]
fn request_constructors_copy_arguments() {
    let req = ScheduleMessageRequest::new("C1", 1606965300, "hello".to_string());
    assert_eq!(req.channel, "C1");
    assert_eq!(req.post_at, 1606965300);
    assert_eq!(req.text, "hello");
    let del = DeleteScheduledMessageRequest::new("C1", "Q123");
    assert_eq!(del.channel, "C1");
    assert_eq!(del.scheduled_message_id, "Q123");
}

#[test]
fn display_name_falls_back_to_account_name() {
    assert_eq!(
        display_name_of(&Some("spengler".to_string()), &"egon".to_string()),
        "spengler"
    );
    assert_eq!(display_name_of(&None, &"egon".to_string()), "egon");
}

#[test]
fn response_unwrap_returns_payload() {
    let resp: SlackApiResponse<u32> = SlackApiResponse {
        ok: true,
        content: SlackApiContent::Success(7),
        warning: None,
        response_metadata: None,
    };
    assert_eq!(resp.unwrap(), 7);
}
