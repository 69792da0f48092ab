use rinr::command::{checkCommand, COMMAND, PREDICTION};
use rinr::media::{
    amount_from, buildTimerPhrase, clip_length, clip_start, is_set, matchLength, matchStart,
    timer_over, timer_request, timer_seconds, timer_span,
};
use rinr::members::{
    checkDuplicate, checkError, dmUser, getVoiceIfActive, has_self_gift, resolveRoles,
    santaHandler, Channel, SantaMode, BOT_ID,
};
use rinr::predict::{
    addPrediction, contains_text, next_key, printList, record_line, PredictionMode,
    UserPrediction,
};
use rinr::text::starts_with;

#[test]
fn commands_by_their_word() {
    assert_eq!(checkCommand("$test"), COMMAND::E_TEST);
    assert_eq!(checkCommand("$testing 123"), COMMAND::E_TEST);
    assert_eq!(checkCommand("$setvideo https://youtu.be/abcdefghijk"), COMMAND::E_SET);
    assert_eq!(checkCommand("$list x"), COMMAND::E_LIST);
    assert_eq!(checkCommand("$disconnect x"), COMMAND::E_DISCONNECT);
    assert_eq!(checkCommand("STFU"), COMMAND::E_STFU);
    assert_eq!(checkCommand("kys now"), COMMAND::E_KYS);
    assert_eq!(checkCommand("$timer minutes=5"), COMMAND::E_TIMER);
    assert_eq!(checkCommand("$win"), COMMAND::E_WIN);
    assert_eq!(checkCommand("$ban x"), COMMAND::E_BAN);
    assert_eq!(checkCommand("$userlist x"), COMMAND::E_ULIST);
    assert_eq!(checkCommand("$say hello"), COMMAND::E_SAY);
    assert_eq!(checkCommand("$predict -list"), COMMAND::E_PREDICTION);
    assert_eq!(checkCommand("$poll x"), COMMAND::E_POLL);
    assert_eq!(checkCommand("$fn x"), COMMAND::E_FORTNITE);
    assert_eq!(checkCommand("$event list"), COMMAND::E_EVENT);
    assert_eq!(checkCommand("$santa register"), COMMAND::E_SANTA);
}

#[test]
fn messages_that_are_no_command() {
    assert_eq!(checkCommand(""), COMMAND::INVALID);
    assert_eq!(checkCommand("hello"), COMMAND::INVALID);
    assert_eq!(checkCommand(" $test"), COMMAND::INVALID);
    assert_eq!(checkCommand("$event"), COMMAND::INVALID);
    assert_eq!(checkCommand("$list"), COMMAND::INVALID);
    assert_eq!(checkCommand("stfu"), COMMAND::INVALID);
    assert_eq!(checkCommand("$tes"), COMMAND::INVALID);
}

#[test]
fn words_of_the_commands() {
    assert_eq!(COMMAND::E_EVENT.keyword(), "$event ");
    assert_eq!(COMMAND::E_PREDICTION.keyword(), PREDICTION);
    assert_eq!(COMMAND::INVALID.keyword(), "");
    assert_eq!(COMMAND::nth(0), COMMAND::E_TEST);
    assert_eq!(COMMAND::nth(15), COMMAND::E_SANTA);
    assert_eq!(COMMAND::nth(16), COMMAND::INVALID);
    for i in 0..16 {
        assert_eq!(checkCommand(COMMAND::nth(i).keyword()), COMMAND::nth(i));
    }
}

#[test]
fn beginnings() {
    assert!(starts_with("abc", ""));
    assert!(starts_with("abc", "a"));
    assert!(starts_with("abc", "abc"));
    assert!(!starts_with("abc", "abcd"));
    assert!(!starts_with("abc", "b"));
    assert!(starts_with("", ""));
    assert!(starts_with("äöü", "äö"));
}

#[test]
fn intro_for_a_user_who_just_joined() {
    assert_eq!(checkError(5, false, Some(77)), Ok(77));
    assert_eq!(checkError(5, true, Some(77)), Err(()));
    assert_eq!(checkError(5, false, None), Err(()));
    assert_eq!(checkError(BOT_ID, false, Some(77)), Err(()));
    assert_eq!(checkError(909567837964746863, false, Some(77)), Err(()));
}

#[test]
fn roles_by_member() {
    assert_eq!(resolveRoles(204281179636105226), vec![896806202657341451, 1047202830487928853]);
    assert_eq!(resolveRoles(366590223196356608), vec![1047202830487928853]);
    assert_eq!(resolveRoles(759736758534668348), vec![1047203633080586340]);
    assert_eq!(resolveRoles(891006371967926282), vec![1047203633080586340]);
    assert_eq!(resolveRoles(1080477409658290186), vec![1047203633080586340]);
    assert_eq!(resolveRoles(389063964836888579), vec![1047201004560592906]);
    assert_eq!(resolveRoles(299215764920205314), vec![1047201004560592906]);
    assert_eq!(resolveRoles(1), vec![905199210809397259]);
    assert_eq!(resolveRoles(0), vec![905199210809397259]);
}

#[test]
fn draws_that_pair_someone_with_themselves() {
    assert!(!has_self_gift(&vec![], &vec![]));
    assert!(has_self_gift(&vec![1], &vec![1]));
    assert!(!has_self_gift(&vec![1, 2], &vec![2, 1]));
    assert!(has_self_gift(&vec![1, 2, 3], &vec![2, 1, 3]));
    assert!(!has_self_gift(&vec![1, 2, 3], &vec![2, 3, 1]));
    assert!(!has_self_gift(&vec![1, 2, 3], &vec![2, 3]));
    assert!(has_self_gift(&vec![1, 3], &vec![2, 3, 1]));
}

#[test]
fn timers() {
    assert_eq!(timer_request("$timer minutes=5 seconds=30"), (5, 30));
    assert_eq!(timer_request("$timer minutes=5"), (5, 0));
    assert_eq!(timer_request("$timer seconds=7"), (0, 7));
    assert_eq!(timer_request("$timer seconds=75"), (0, 59));
    assert_eq!(timer_request("$timer minutes=1234"), (123, 0));
    assert_eq!(timer_request("$timer seconds=123"), (0, 12));
    assert_eq!(timer_request("$timer"), (0, 0));
    assert_eq!(timer_request("$timer minutes=x"), (0, 0));
    assert_eq!(timer_span(Some(2), Some(60)), (2, 59));
    assert_eq!(timer_span(None, Some(59)), (0, 59));
}

#[test]
fn timer_phrases() {
    assert_eq!(buildTimerPhrase(&5, &30), "Timer set for 5 minute(s) and 30 second(s)");
    assert_eq!(buildTimerPhrase(&0, &0), "Timer set for 0 minute(s) and 0 second(s)");
    assert_eq!(timer_over(42), "Your timer has ended!\n<@42>");
}

#[test]
fn amounts() {
    let found = Some(vec![Some("start=12".to_string()), Some("12".to_string())]);
    assert_eq!(amount_from(&found), Some(12));
    let found = Some(vec![Some("x".to_string()), None]);
    assert_eq!(amount_from(&found), None);
    assert_eq!(amount_from(&None), None);
}

#[test]
fn clip_starts() {
    assert_eq!(clip_start(None, 100), 0);
    assert_eq!(clip_start(None, 0), 0);
    assert_eq!(clip_start(Some(30), 100), 30);
    assert_eq!(clip_start(Some(99), 100), 99);
    assert_eq!(clip_start(Some(100), 100), 98);
    assert_eq!(clip_start(Some(500), 100), 98);
    assert_eq!(clip_start(Some(0), 1), 0);
    assert_eq!(clip_start(Some(2), 2), 0);
    assert_eq!(matchStart("$setvideo x start=30", &100), Some(30));
    assert_eq!(matchStart("$setvideo x start=300", &100), Some(98));
    assert_eq!(matchStart("$setvideo x", &100), Some(0));
    assert_eq!(matchStart("$setvideo x start=5", &1), None);
    assert_eq!(matchStart("$setvideo x start=0", &0), None);
    assert_eq!(matchStart("$setvideo x", &0), Some(0));
}

#[test]
fn clip_lengths() {
    assert_eq!(clip_length(None, 100, 0), 5);
    assert_eq!(clip_length(None, 100, 95), 5);
    assert_eq!(clip_length(None, 100, 96), 4);
    assert_eq!(clip_length(None, 100, 100), 0);
    assert_eq!(clip_length(Some(3), 100, 0), 3);
    assert_eq!(clip_length(Some(0), 100, 0), 1);
    assert_eq!(clip_length(Some(10), 100, 0), 10);
    assert_eq!(clip_length(Some(11), 100, 0), 10);
    assert_eq!(clip_length(Some(99), 100, 0), 10);
    assert_eq!(clip_length(Some(5), 100, 94), 5);
    assert_eq!(clip_length(Some(5), 100, 95), 5);
    assert_eq!(clip_length(Some(5), 100, 96), 4);
    assert_eq!(clip_length(Some(5), 100, 100), 0);
    assert_eq!(clip_length(Some(5), u64::MAX, u64::MAX - 2), 2);
    assert_eq!(matchLength("length=7", &100, &10), Some(7));
    assert_eq!(matchLength("length=70", &100, &10), Some(10));
    assert_eq!(matchLength("length=700", &100, &10), Some(10));
    assert_eq!(matchLength("nothing", &100, &98), Some(2));
    assert_eq!(matchLength("length=7", &100, &101), None);
}

#[test]
fn prediction_modes() {
    assert_eq!(addPrediction("$predict -list"), PredictionMode::List);
    assert_eq!(addPrediction("$predict -add it will rain"), PredictionMode::Add);
    assert_eq!(addPrediction("$predict -remove 3"), PredictionMode::Remove);
    assert_eq!(addPrediction("$predict -add x -list"), PredictionMode::List);
    assert_eq!(addPrediction("$predict -remove x -add"), PredictionMode::Add);
    assert_eq!(addPrediction("$predict"), PredictionMode::Nothing);
    assert_eq!(addPrediction("$predict-list"), PredictionMode::Nothing);
    assert_eq!(addPrediction(""), PredictionMode::Nothing);
}

#[test]
fn finding_a_part() {
    assert!(contains_text("abc", ""));
    assert!(contains_text("", ""));
    assert!(!contains_text("", "a"));
    assert!(contains_text("abc", "abc"));
    assert!(contains_text("abc", "c"));
    assert!(contains_text("abc", "bc"));
    assert!(!contains_text("abc", "abcd"));
    assert!(!contains_text("abc", "ac"));
    assert!(contains_text("aab", "ab"));
}

#[test]
fn next_number_for_a_prediction() {
    assert_eq!(next_key(&vec![]), 1);
    assert_eq!(next_key(&vec![1]), 2);
    assert_eq!(next_key(&vec![3, 9, 2]), 10);
    assert_eq!(next_key(&vec![0, 0]), 1);
    assert_eq!(next_key(&vec![u64::MAX - 1, 5]), u64::MAX);
}

#[test]
fn prediction_lines() {
    let p = UserPrediction {
        user_id: 42,
        user_name: "ann".to_string(),
        prediction: "it will rain".to_string(),
    };
    assert_eq!(record_line(7, &p), "7=42=it will rain=ann\n");
    assert_eq!(printList(&vec![]), "No Predictions at the moment!");
    assert_eq!(
        printList(&vec![(7, p.clone()), (8, p)]),
        "Current Predictions: \nit will rain by ann, ID:7\nit will rain by ann, ID:8\n"
    );
}

fn channel(id: u64, voice: bool, members: Option<Vec<u64>>) -> Channel {
    Channel { id, voice, members }
}

#[test]
fn voice_channel_of_a_user() {
    let channels = vec![
        channel(10, false, Some(vec![5])),
        channel(11, true, None),
        channel(12, true, Some(vec![6, 7])),
        channel(13, true, Some(vec![5, 7])),
        channel(14, true, Some(vec![5])),
    ];
    assert_eq!(getVoiceIfActive(5, &channels), Some(13));
    assert_eq!(getVoiceIfActive(7, &channels), Some(12));
    assert_eq!(getVoiceIfActive(6, &channels), Some(12));
    assert_eq!(getVoiceIfActive(8, &channels), None);
    assert_eq!(getVoiceIfActive(5, &vec![]), None);
    assert_eq!(getVoiceIfActive(5, &channels[..2].to_vec()), None);
}

#[test]
fn bot_in_a_voice_channel() {
    assert!(!checkDuplicate(&vec![]));
    assert!(!checkDuplicate(&vec![channel(1, true, Some(vec![5])), channel(2, true, None)]));
    assert!(!checkDuplicate(&vec![channel(1, false, Some(vec![BOT_ID]))]));
    assert!(checkDuplicate(&vec![channel(1, true, Some(vec![5])), channel(2, true, Some(vec![4, BOT_ID]))]));
}

#[test]
fn requests_about_the_secret_santa() {
    assert_eq!(santaHandler("$santa register", 0), SantaMode::Register);
    assert_eq!(santaHandler("$santa remove", 5), SantaMode::Remove);
    assert_eq!(santaHandler("$santa start", 0), SantaMode::TooFew);
    assert_eq!(santaHandler("$santa start", 1), SantaMode::TooFew);
    assert_eq!(santaHandler("$santa start", 2), SantaMode::Start);
    assert_eq!(santaHandler("$santa", 2), SantaMode::Show);
    assert_eq!(santaHandler("$santa start remove register", 2), SantaMode::Register);
    assert_eq!(santaHandler("$santa start remove", 2), SantaMode::Remove);
    assert_eq!(dmUser(42), "Your Secret Santa is <@42>");
}

#[test]
fn timers_that_run() {
    assert!(!is_set((0, 0)));
    assert!(is_set((0, 1)));
    assert!(is_set((1, 0)));
    assert!(is_set((u64::MAX, u64::MAX)));
    assert_eq!(timer_seconds(0, 0), 0);
    assert_eq!(timer_seconds(2, 30), 150);
    assert_eq!(timer_seconds(999, 59), 59999);
}
