use rmb::duration::friendly_duration;
use rmb::numbers::{attempt_to_parse_number, humanize_number, parse_usize};
use rmb::voice::{filter_input, parse_commands, should_forward, Alert, Alerts, VoiceIntent};

fn cv(s: &str) -> Vec<char> {
    s.chars().collect()
}

fn words(s: &str) -> Vec<Vec<char>> {
    s.split_whitespace().map(cv).collect()
}

#[test]
fn friendly_duration_plural_units() {
    assert_eq!(friendly_duration(0), "0 seconds");
    assert_eq!(friendly_duration(59), "59 seconds");
    assert_eq!(friendly_duration(61), "1 minute 1 second");
    assert_eq!(friendly_duration(3600 * 2 + 5), "2 hours 5 seconds");
}

#[test]
fn humanize_small_numbers() {
    assert_eq!(humanize_number(0), "zero");
    assert_eq!(humanize_number(7), "seven");
    assert_eq!(humanize_number(13), "thirteen");
    assert_eq!(humanize_number(40), "forty");
    assert_eq!(humanize_number(42), "forty two");
    assert_eq!(humanize_number(100), "one hundred");
}

#[test]
fn humanize_with_and() {
    assert_eq!(humanize_number(105), "one hundred and five");
    assert_eq!(humanize_number(1234), "one thousand two hundred and thirty four");
    assert_eq!(humanize_number(2000), "two thousand");
    assert_eq!(humanize_number(1_000_001), "one thousand thousand and one");
}

#[test]
fn parse_number_words_and_digits() {
    assert_eq!(attempt_to_parse_number(&words("forty two")), Some(42));
    assert_eq!(attempt_to_parse_number(&words("five hundred")), Some(500));
    assert_eq!(attempt_to_parse_number(&words("two thousand")), Some(2000));
    assert_eq!(attempt_to_parse_number(&words("12")), Some(12));
    assert_eq!(attempt_to_parse_number(&words("")), Some(0));
    assert_eq!(attempt_to_parse_number(&words("one hundred and five")), None);
    assert_eq!(attempt_to_parse_number(&words("loud")), None);
}

#[test]
fn parse_number_overflow_is_none() {
    assert_eq!(
        attempt_to_parse_number(&words("one quintillion quintillion")),
        None
    );
}

#[test]
fn parse_usize_like_std() {
    for s in ["0", "17", "+5", "", "+", "-1", "1a", "18446744073709551615", "18446744073709551616"] {
        let expected = s.parse::<usize>().ok();
        assert_eq!(parse_usize(&cv(s)), expected, "{}", s);
    }
}

#[test]
fn filter_input_lowercases_and_squeezes() {
    assert_eq!(filter_input("Hey, BOT!  Play   Music."), cv("hey bot play music"));
    assert_eq!(filter_input("   "), cv(""));
    assert_eq!(filter_input("ÉCHO 42"), cv("cho 42"));
}

fn alerts() -> Alerts {
    Alerts {
        phrases: vec![Alert {
            main: "bot".to_string(),
            aliases: vec!["bought".to_string(), "robot".to_string()],
        }],
    }
    .prepared()
}

fn intent_and_feedback(s: &str) -> (String, Option<String>) {
    let r = parse_commands(s, &alerts());
    let i = match r.intent {
        VoiceIntent::Nothing => "nothing".to_string(),
        VoiceIntent::NoConsent => "noconsent".to_string(),
        VoiceIntent::Play(q) => format!("play:{}", q),
        VoiceIntent::Stop => "stop".to_string(),
        VoiceIntent::Skip => "skip".to_string(),
        VoiceIntent::Pause(b) => format!("pause:{}", b),
        VoiceIntent::Volume(v) => format!("volume:{}", v),
        VoiceIntent::Remove(i) => format!("remove:{}", i),
    };
    (i, r.feedback)
}

#[test]
fn voice_play_command() {
    assert_eq!(
        intent_and_feedback("Hey bot, play never gonna give you up"),
        (
            "play:never gonna give you up".to_string(),
            Some("Adding never gonna give you up to the queue.".to_string())
        )
    );
    assert_eq!(
        intent_and_feedback("bot play wonder wall"),
        ("play:wonder wall".to_string(), Some("Anyway, here's wonderwall.".to_string()))
    );
}

#[test]
fn voice_alias_and_volume() {
    assert_eq!(
        intent_and_feedback("robot volume fifty"),
        ("volume:50".to_string(), Some("Setting volyume to fifty%.".to_string()))
    );
    assert_eq!(
        intent_and_feedback("bot volume two hundred"),
        (
            "nothing".to_string(),
            Some("Volyume must be between zero and one hundred.".to_string())
        )
    );
    assert_eq!(
        intent_and_feedback("bot volume please"),
        (
            "nothing".to_string(),
            Some("You need to say a number for the volyume.".to_string())
        )
    );
}

#[test]
fn voice_other_commands() {
    assert_eq!(
        intent_and_feedback("bot stop"),
        ("stop".to_string(), Some("Goodbuy, my friend.".to_string()))
    );
    assert_eq!(
        intent_and_feedback("bot skip"),
        ("skip".to_string(), Some("Skipping.".to_string()))
    );
    assert_eq!(
        intent_and_feedback("bot pause"),
        ("pause:true".to_string(), Some("Pausing.".to_string()))
    );
    assert_eq!(
        intent_and_feedback("bot unpause"),
        ("pause:false".to_string(), Some("Resuming.".to_string()))
    );
    assert_eq!(
        intent_and_feedback("bot remove three"),
        ("remove:3".to_string(), Some("Removing song 3 from queue.".to_string()))
    );
    assert_eq!(
        intent_and_feedback("bot say hello there"),
        ("nothing".to_string(), Some("hello there.".to_string()))
    );
    assert_eq!(
        intent_and_feedback("bot dance"),
        ("nothing".to_string(), Some("Unknown command. dance.".to_string()))
    );
    assert_eq!(
        intent_and_feedback("bot"),
        ("nothing".to_string(), None)
    );
    assert_eq!(
        intent_and_feedback("bot "),
        ("nothing".to_string(), None)
    );
}

#[test]
fn voice_needs_a_command_and_consent() {
    assert_eq!(
        intent_and_feedback("hey bot "),
        ("nothing".to_string(), None)
    );
    assert_eq!(
        intent_and_feedback("bot bot x"),
        ("nothing".to_string(), Some("You need to say a command.".to_string()))
    );
    assert_eq!(
        intent_and_feedback("I do NOT consent to being recorded, bot play x"),
        ("noconsent".to_string(), None)
    );
    assert_eq!(intent_and_feedback(""), ("nothing".to_string(), None));
    assert_eq!(intent_and_feedback("no wake word here"), ("nothing".to_string(), None));
}

#[test]
fn forwarding_skips_goodbyes() {
    assert!(!should_forward("Bye."));
    assert!(!should_forward("thank you."));
    assert!(should_forward("thank you"));
    assert!(should_forward("hello"));
}

#[test]
fn volume_words_read_back() {
    for n in 0..=100usize {
        let spoken = humanize_number(n);
        assert_eq!(attempt_to_parse_number(&words(&spoken)), Some(n), "{}", spoken);
    }
}
