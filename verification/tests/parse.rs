use rinr::clock::{EventDate, EventTime};
use rinr::parse::{
    build_insert, createChannelEvent, createDeleteEvent, createInsert, createInvalid,
    createListEvent, createSubscribeEvent, createUnsubscribeEvent, create_signal, date_from,
    eventHandler, group_text, id_from, interval_from, parse, parse_date, parse_first_match,
    parse_id, parse_interval, parse_subscribe, parse_time, refer, select, subscribe_from,
    time_from, COMMAND_PATTERN, DESCRIPTION_PATTERN, MODE_PATTERN, NAME_PATTERN,
};
use rinr::scheduler::{Command, EventSignal};
use rinr::store::{DailyEvent, Timeslice};

fn today() -> EventDate {
    EventDate { year: 2024, month: 5, day: 17 }
}

fn groups(parts: &[Option<&str>]) -> Option<Vec<Option<String>>> {
    Some(parts.iter().map(|p| p.map(|s| s.to_string())).collect())
}

fn invalid() -> EventSignal {
    EventSignal { event_type: Command::Invalid, event_info: None, channel_id: 1 }
}

fn reference(kind: Command, name: &str, id: u64, subscribers: Vec<u64>, channel: u64) -> EventSignal {
    EventSignal {
        event_type: kind,
        event_info: Some(DailyEvent {
            name: name.to_string(),
            id,
            message: None,
            timestamp: EventTime { hour: 0, minute: 0, second: 0 },
            subscribers,
            command: None,
            date: EventDate { year: 1970, month: 1, day: 1 },
            interval: Timeslice::Daily,
        }),
        channel_id: channel,
    }
}

#[test]
fn command_words() {
    assert_eq!(Command::from_str("list"), Some(Command::List));
    assert_eq!(Command::from_str("create"), Some(Command::Create));
    assert_eq!(Command::from_str("delete"), Some(Command::Delete));
    assert_eq!(Command::from_str("channel"), Some(Command::Channel));
    assert_eq!(Command::from_str("subscribe"), Some(Command::Subscribe));
    assert_eq!(Command::from_str("unsubscribe"), Some(Command::Unsubscribe));
    assert_eq!(Command::from_str("invalid"), None);
    assert_eq!(Command::from_str("List"), None);
    assert_eq!(Command::from_str(""), None);
    assert_eq!(Command::from_str("list "), None);
}

#[test]
fn first_match_of_a_bracketed_field() {
    assert_eq!(
        parse_first_match("$event create name=[Standup] time=[09:00]", NAME_PATTERN),
        Some("Standup".to_string())
    );
    assert_eq!(parse_first_match("name=[a] name=[b]", NAME_PATTERN), Some("a".to_string()));
    assert_eq!(parse_first_match("name=[a]b]", NAME_PATTERN), Some("a".to_string()));
    assert_eq!(parse_first_match("name=[]", NAME_PATTERN), Some("".to_string()));
    assert_eq!(parse_first_match("name=[a", NAME_PATTERN), None);
    assert_eq!(parse_first_match("name=a", NAME_PATTERN), None);
    assert_eq!(parse_first_match("", NAME_PATTERN), None);
    assert_eq!(
        parse_first_match("description=[with spaces, and = signs]", DESCRIPTION_PATTERN),
        Some("with spaces, and = signs".to_string())
    );
    assert_eq!(
        parse_first_match("command=[$say hi]", COMMAND_PATTERN),
        Some("$say hi".to_string())
    );
}

#[test]
fn first_match_is_not_the_text_handed_in() {
    let text = "xx name=[inner] yy";
    assert_eq!(parse_first_match(text, NAME_PATTERN), Some("inner".to_string()));
    assert_eq!(parse_first_match("create", MODE_PATTERN), Some("create".to_string()));
    assert_eq!(parse_first_match("please unsubscribe me", MODE_PATTERN), Some("unsubscribe".to_string()));
    assert_eq!(parse_first_match("nothing here", MODE_PATTERN), None);
}

#[test]
fn first_match_of_something_that_is_no_pattern() {
    assert_eq!(parse_first_match("name=[a]", "name=\\[(.*?"), None);
    assert_eq!(parse_first_match("((", "(("), None);
}

#[test]
fn first_match_of_a_pattern_without_groups() {
    assert_eq!(parse_first_match("abc", "b"), None);
    assert_eq!(parse_first_match("abc", "(x)?b"), None);
}

#[test]
fn time_field() {
    assert_eq!(
        parse_time("time=[09:00]"),
        Some(Some(EventTime { hour: 9, minute: 0, second: 0 }))
    );
    assert_eq!(
        parse_time("x time=[23:59] y"),
        Some(Some(EventTime { hour: 23, minute: 59, second: 0 }))
    );
    assert_eq!(
        parse_time("time=[00:00]"),
        Some(Some(EventTime { hour: 0, minute: 0, second: 0 }))
    );
    assert_eq!(
        parse_time("time=[19:07] time=[20:00]"),
        Some(Some(EventTime { hour: 19, minute: 7, second: 0 }))
    );
}

#[test]
fn time_field_out_of_range_or_malformed() {
    assert_eq!(parse_time("time=[24:00]"), None);
    assert_eq!(parse_time("time=[12:60]"), None);
    assert_eq!(parse_time("time=[9:00]"), None);
    assert_eq!(parse_time("time=[09:0]"), None);
    assert_eq!(parse_time("time=09:00"), None);
    assert_eq!(parse_time("time=[0900]"), None);
    assert_eq!(parse_time(""), None);
}

#[test]
fn time_field_with_digits_of_another_script() {
    assert_eq!(parse_time("time=[1٢:30]"), None);
    assert_eq!(parse_time("time=[1٢:30] time=[12:30]"), None);
}

#[test]
fn time_from_groups() {
    assert_eq!(
        time_from(&groups(&[Some("time=[12:34]"), Some("12"), Some("34")])),
        Some(Some(EventTime { hour: 12, minute: 34, second: 0 }))
    );
    assert_eq!(time_from(&groups(&[Some("x"), Some("24"), Some("00")])), Some(None));
    assert_eq!(time_from(&groups(&[Some("x"), Some("12"), Some("60")])), Some(None));
    assert_eq!(time_from(&groups(&[Some("x"), Some("ab"), Some("00")])), None);
    assert_eq!(time_from(&groups(&[Some("x"), Some("12"), None])), None);
    assert_eq!(time_from(&groups(&[Some("x"), Some("12")])), None);
    assert_eq!(time_from(&groups(&[Some("x"), Some("4294967296"), Some("00")])), None);
    assert_eq!(time_from(&None), None);
}

#[test]
fn subscribe_field() {
    assert_eq!(parse_subscribe("subscribe=[1]"), Some(true));
    assert_eq!(parse_subscribe("subscribe=[0]"), Some(false));
    assert_eq!(parse_subscribe("subscribe=[0] subscribe=[1]"), Some(false));
    assert_eq!(parse_subscribe("subscribe=[2]"), None);
    assert_eq!(parse_subscribe("subscribe=1"), None);
    assert_eq!(parse_subscribe("$event subscribe id=3"), None);
}

#[test]
fn subscribe_from_groups() {
    assert_eq!(subscribe_from(&groups(&[Some("x"), Some("1")])), Some(true));
    assert_eq!(subscribe_from(&groups(&[Some("x"), Some("0")])), Some(false));
    assert_eq!(subscribe_from(&groups(&[Some("x"), Some("11")])), Some(false));
    assert_eq!(subscribe_from(&groups(&[Some("x"), None])), None);
    assert_eq!(subscribe_from(&groups(&[Some("x")])), None);
    assert_eq!(subscribe_from(&None), None);
}

#[test]
fn date_field() {
    assert_eq!(parse_date("date=17/05/2024"), Some(EventDate { year: 2024, month: 5, day: 17 }));
    assert_eq!(parse_date("x date=29/02/2024 y"), Some(EventDate { year: 2024, month: 2, day: 29 }));
    assert_eq!(parse_date("date=01/01/0000"), Some(EventDate { year: 0, month: 1, day: 1 }));
    assert_eq!(parse_date("date=31/12/99999"), Some(EventDate { year: 9999, month: 12, day: 31 }));
}

#[test]
fn date_field_that_names_no_day() {
    assert_eq!(parse_date("date=29/02/2023"), None);
    assert_eq!(parse_date("date=31/04/2024"), None);
    assert_eq!(parse_date("date=00/01/2024"), None);
    assert_eq!(parse_date("date=01/13/2024"), None);
    assert_eq!(parse_date("date=1/1/2024"), None);
    assert_eq!(parse_date("date=17-05-2024"), None);
    assert_eq!(parse_date("date=[17/05/2024]"), None);
    assert_eq!(parse_date(""), None);
}

#[test]
fn date_from_groups() {
    assert_eq!(
        date_from(&groups(&[Some("x"), Some("17"), Some("05"), Some("2024")])),
        Some(EventDate { year: 2024, month: 5, day: 17 })
    );
    assert_eq!(
        date_from(&groups(&[Some("x"), Some("17"), Some("05"), None])),
        Some(EventDate { year: 0, month: 5, day: 17 })
    );
    assert_eq!(
        date_from(&groups(&[Some("x"), Some("17"), Some("05"), Some("0")])),
        Some(EventDate { year: 0, month: 5, day: 17 })
    );
    assert_eq!(date_from(&groups(&[Some("x"), None, Some("05"), Some("2024")])), None);
    assert_eq!(date_from(&groups(&[Some("x"), Some("aa"), Some("05"), Some("2024")])), None);
    assert_eq!(date_from(&groups(&[Some("x"), Some("17"), Some("05"), Some("2147483648")])), None);
    assert_eq!(date_from(&groups(&[Some("x"), Some("17"), Some("05"), Some("2147483647")])), None);
    assert_eq!(date_from(&None), None);
}

#[test]
fn interval_field() {
    assert_eq!(parse_interval("interval=Daily"), Some(Timeslice::Daily));
    assert_eq!(parse_interval("interval=weekly"), Some(Timeslice::Weekly));
    assert_eq!(parse_interval("INTERVAL=MONTHLY"), Some(Timeslice::Monthly));
    assert_eq!(parse_interval("x interval=YeArLy y"), Some(Timeslice::Yearly));
    assert_eq!(parse_interval("interval=Once"), Some(Timeslice::Once));
    assert_eq!(parse_interval("interval=Oncely"), Some(Timeslice::Once));
    assert_eq!(parse_interval("interval=Hourly"), None);
    assert_eq!(parse_interval("interval=[Daily]"), None);
    assert_eq!(parse_interval(""), None);
}

#[test]
fn interval_from_groups() {
    assert_eq!(interval_from(&groups(&[Some("x"), Some("DaIlY")])), Some(Timeslice::Daily));
    assert_eq!(interval_from(&groups(&[Some("x"), Some("never")])), None);
    assert_eq!(interval_from(&groups(&[Some("x"), None])), None);
    assert_eq!(interval_from(&None), None);
}

#[test]
fn number_field() {
    assert_eq!(parse_id("$event delete id=3"), Some(3));
    assert_eq!(parse_id("id=0"), Some(0));
    assert_eq!(parse_id("id=007 id=9"), Some(7));
    assert_eq!(parse_id("id=18446744073709551615"), Some(u64::MAX));
    assert_eq!(parse_id("id=18446744073709551616"), None);
    assert_eq!(parse_id("id=12ab"), Some(12));
    assert_eq!(parse_id("id="), None);
    assert_eq!(parse_id("id=-1"), None);
    assert_eq!(parse_id("id=[3]"), None);
    assert_eq!(parse_id("$event delete"), None);
}

#[test]
fn number_from_groups() {
    assert_eq!(id_from(&groups(&[Some("id=3"), Some("3")])), Some(3));
    assert_eq!(id_from(&groups(&[Some("id=3"), Some("x")])), None);
    assert_eq!(id_from(&groups(&[Some("id=3"), None])), None);
    assert_eq!(id_from(&groups(&[Some("id=3")])), None);
    assert_eq!(id_from(&None), None);
}

#[test]
fn text_of_a_group() {
    let found = groups(&[Some("whole"), Some("one"), None]);
    assert_eq!(group_text(&found, 0), Some("whole".to_string()));
    assert_eq!(group_text(&found, 1), Some("one".to_string()));
    assert_eq!(group_text(&found, 2), None);
    assert_eq!(group_text(&found, 3), None);
    assert_eq!(group_text(&None, 0), None);
}

#[test]
fn signals_without_an_event() {
    assert_eq!(createInvalid(), invalid());
    assert_eq!(
        createChannelEvent(77),
        EventSignal { event_type: Command::Channel, event_info: None, channel_id: 77 }
    );
    assert_eq!(
        createListEvent(78),
        EventSignal { event_type: Command::List, event_info: None, channel_id: 78 }
    );
}

#[test]
fn signal_to_subscribe() {
    assert_eq!(
        createSubscribeEvent("$event subscribe id=4", 42, 77),
        reference(Command::Subscribe, "Subscribe", 4, vec![42], 77)
    );
    assert_eq!(createSubscribeEvent("$event subscribe", 42, 77), invalid());
    assert_eq!(createSubscribeEvent("$event subscribe id=99999999999999999999", 42, 77), invalid());
}

#[test]
fn signal_to_unsubscribe() {
    assert_eq!(
        createUnsubscribeEvent("$event unsubscribe id=4", 42, 77),
        reference(Command::Unsubscribe, "Unsubscribe", 4, vec![42], 77)
    );
    assert_eq!(createUnsubscribeEvent("$event unsubscribe id=x", 42, 77), invalid());
}

#[test]
fn signal_to_delete() {
    assert_eq!(
        createDeleteEvent("$event delete id=12", 77),
        reference(Command::Delete, "Delete", 12, vec![], 77)
    );
    assert_eq!(createDeleteEvent("$event delete 12", 77), invalid());
}

#[test]
fn signal_about_a_number() {
    assert_eq!(
        refer(Command::Delete, "Delete", Some(5), vec![1, 2], 9),
        reference(Command::Delete, "Delete", 5, vec![1, 2], 9)
    );
    assert_eq!(refer(Command::Delete, "Delete", None, vec![1, 2], 9), invalid());
}

#[test]
fn signal_to_create_with_every_field() {
    let text = "$event create name=[Standup] description=[Daily sync] time=[09:00] subscribe=[1] command=[$say hi] date=20/06/2024 interval=Weekly";
    let signal = createInsert(text, 42, 77, &today());
    assert_eq!(
        signal,
        EventSignal {
            event_type: Command::Create,
            event_info: Some(DailyEvent {
                name: "Standup".to_string(),
                id: 0,
                message: Some("Daily sync".to_string()),
                timestamp: EventTime { hour: 9, minute: 0, second: 0 },
                subscribers: vec![42],
                command: Some("$say hi".to_string()),
                date: EventDate { year: 2024, month: 6, day: 20 },
                interval: Timeslice::Weekly,
            }),
            channel_id: 77,
        }
    );
}

#[test]
fn signal_to_create_with_the_needed_fields_only() {
    let signal = createInsert("$event create name=[N] time=[23:59]", 42, 77, &today());
    assert_eq!(
        signal,
        EventSignal {
            event_type: Command::Create,
            event_info: Some(DailyEvent {
                name: "N".to_string(),
                id: 0,
                message: None,
                timestamp: EventTime { hour: 23, minute: 59, second: 0 },
                subscribers: vec![1],
                command: None,
                date: today(),
                interval: Timeslice::Daily,
            }),
            channel_id: 77,
        }
    );
}

#[test]
fn signal_to_create_without_name_or_time_is_invalid() {
    assert_eq!(createInsert("$event create time=[09:00]", 42, 77, &today()), invalid());
    assert_eq!(createInsert("$event create name=[N]", 42, 77, &today()), invalid());
    assert_eq!(createInsert("$event create name=[N] time=[25:00]", 42, 77, &today()), invalid());
    assert_eq!(createInsert("$event create", 42, 77, &today()), invalid());
}

#[test]
fn signal_to_create_moves_a_past_date_to_today() {
    let event = |text: &str| createInsert(text, 42, 77, &today()).event_info.unwrap();
    assert_eq!(event("name=[N] time=[09:00] date=16/05/2024").date, today());
    assert_eq!(event("name=[N] time=[09:00] date=31/12/2023").date, today());
    assert_eq!(event("name=[N] time=[09:00] date=17/05/2024").date, today());
    assert_eq!(
        event("name=[N] time=[09:00] date=18/05/2024").date,
        EventDate { year: 2024, month: 5, day: 18 }
    );
    assert_eq!(event("name=[N] time=[09:00] date=30/02/2024").date, today());
}

#[test]
fn signal_to_create_subscribes_the_author_only_on_request() {
    let subscribers =
        |text: &str| createInsert(text, 42, 77, &today()).event_info.unwrap().subscribers;
    assert_eq!(subscribers("name=[N] time=[09:00] subscribe=[1]"), vec![42]);
    assert_eq!(subscribers("name=[N] time=[09:00] subscribe=[0]"), vec![1]);
    assert_eq!(subscribers("name=[N] time=[09:00]"), vec![1]);
}

#[test]
fn signal_to_create_falls_back_to_daily() {
    let interval = |text: &str| createInsert(text, 42, 77, &today()).event_info.unwrap().interval;
    assert_eq!(interval("name=[N] time=[09:00] interval=Never"), Timeslice::Daily);
    assert_eq!(interval("name=[N] time=[09:00] interval=once"), Timeslice::Once);
}

#[test]
fn signal_built_from_fields() {
    let signal = build_insert(
        Some("N".to_string()),
        None,
        Some(Some(EventTime { hour: 1, minute: 2, second: 0 })),
        Some(false),
        None,
        Some(EventDate { year: 2030, month: 1, day: 1 }),
        Some(Timeslice::Yearly),
        42,
        77,
        &today(),
    );
    let event = signal.event_info.unwrap();
    assert_eq!(signal.event_type, Command::Create);
    assert_eq!(signal.channel_id, 77);
    assert_eq!(event.subscribers, vec![1]);
    assert_eq!(event.date, EventDate { year: 2030, month: 1, day: 1 });
    assert_eq!(event.interval, Timeslice::Yearly);
    let no_time = build_insert(
        Some("N".to_string()),
        None,
        Some(None),
        None,
        None,
        None,
        None,
        42,
        77,
        &today(),
    );
    assert_eq!(no_time, invalid());
}

#[test]
fn signal_of_each_kind() {
    let text = "$event x id=2 name=[N] time=[09:00]";
    assert_eq!(create_signal(Command::List, text, 42, 77, &today()), createListEvent(77));
    assert_eq!(create_signal(Command::Channel, text, 42, 77, &today()), createChannelEvent(77));
    assert_eq!(create_signal(Command::Invalid, text, 42, 77, &today()), invalid());
    assert_eq!(
        create_signal(Command::Delete, text, 42, 77, &today()),
        reference(Command::Delete, "Delete", 2, vec![], 77)
    );
    assert_eq!(
        create_signal(Command::Subscribe, text, 42, 77, &today()),
        reference(Command::Subscribe, "Subscribe", 2, vec![42], 77)
    );
    assert_eq!(
        create_signal(Command::Unsubscribe, text, 42, 77, &today()),
        reference(Command::Unsubscribe, "Unsubscribe", 2, vec![42], 77)
    );
    assert_eq!(
        create_signal(Command::Create, text, 42, 77, &today()),
        createInsert(text, 42, 77, &today())
    );
}

#[test]
fn selecting_by_the_word() {
    assert_eq!(select(None, "x", 42, 77, &today()), None);
    assert_eq!(select(Some("nothing".to_string()), "x", 42, 77, &today()), None);
    assert_eq!(select(Some("list".to_string()), "x", 42, 77, &today()), Some(createListEvent(77)));
}

#[test]
fn requests_need_the_leading_word() {
    assert_eq!(parse("list", 42, 77, &today()), None);
    assert_eq!(parse("$event", 42, 77, &today()), None);
    assert_eq!(parse("$eventlist", 42, 77, &today()), None);
    assert_eq!(parse(" $event list", 42, 77, &today()), None);
    assert_eq!(parse("$Event list", 42, 77, &today()), None);
    assert_eq!(parse("", 42, 77, &today()), None);
    assert_eq!(parse("$event ", 42, 77, &today()), None);
    assert_eq!(parse("$event nothing to see", 42, 77, &today()), None);
}

#[test]
fn requests_of_each_kind() {
    assert_eq!(parse("$event list", 42, 77, &today()), Some(createListEvent(77)));
    assert_eq!(parse("$event channel", 42, 77, &today()), Some(createChannelEvent(77)));
    assert_eq!(
        parse("$event delete id=3", 42, 77, &today()),
        Some(reference(Command::Delete, "Delete", 3, vec![], 77))
    );
    assert_eq!(
        parse("$event subscribe id=3", 42, 77, &today()),
        Some(reference(Command::Subscribe, "Subscribe", 3, vec![42], 77))
    );
    assert_eq!(
        parse("$event unsubscribe id=3", 42, 77, &today()),
        Some(reference(Command::Unsubscribe, "Unsubscribe", 3, vec![42], 77))
    );
    assert_eq!(parse("$event delete", 42, 77, &today()), Some(invalid()));
    assert_eq!(
        parse("$event create name=[N] time=[09:00]", 42, 77, &today()),
        Some(createInsert("$event create name=[N] time=[09:00]", 42, 77, &today()))
    );
    assert_eq!(parse("$event create", 42, 77, &today()), Some(invalid()));
}

#[test]
fn requests_take_the_first_word_that_selects() {
    assert_eq!(
        parse("$event please delete id=3 from the list", 42, 77, &today()),
        Some(reference(Command::Delete, "Delete", 3, vec![], 77))
    );
    assert_eq!(
        parse("$event unsubscribe id=3", 42, 77, &today()).unwrap().event_type,
        Command::Unsubscribe
    );
    assert_eq!(parse("$event résumé list", 42, 77, &today()), Some(createListEvent(77)));
}

#[test]
fn requests_read_on_the_day_of_the_clock() {
    assert_eq!(eventHandler("$event list", 42, 77), Some(createListEvent(77)));
    assert_eq!(eventHandler("nothing", 42, 77), None);
    let made = eventHandler("$event create name=[N] time=[09:00] date=01/01/1971", 42, 77)
        .unwrap()
        .event_info
        .unwrap();
    assert!(EventDate { year: 2020, month: 1, day: 1 }.is_before(&made.date));
}
