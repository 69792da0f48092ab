use rinr::media::{
    download_command, download_section, errHandle, set_response, updateInfo, video_address,
    video_id, VidInfo,
};
use rinr::predict::{checkMessageValid, read_record, RecordError, UserPrediction};
use rinr::shop::{formatItems, offer_from, splitMessage, FnShop, DELIMITER};
use rinr::text::{remove_all, split};

fn strings(parts: &[&str]) -> Vec<String> {
    parts.iter().map(|p| p.to_string()).collect()
}

#[test]
fn splitting_at_one_character() {
    assert_eq!(split("a=b=c", "="), strings(&["a", "b", "c"]));
    assert_eq!(split("abc", "="), strings(&["abc"]));
    assert_eq!(split("", "="), strings(&[""]));
    assert_eq!(split("=", "="), strings(&["", ""]));
    assert_eq!(split("==", "="), strings(&["", "", ""]));
    assert_eq!(split("a=", "="), strings(&["a", ""]));
    assert_eq!(split("=a", "="), strings(&["", "a"]));
    assert_eq!(split("ä=ö", "="), strings(&["ä", "ö"]));
}

#[test]
fn splitting_at_several_characters() {
    assert_eq!(split("a^^^b", "^^^"), strings(&["a", "b"]));
    assert_eq!(split("a^^b", "^^^"), strings(&["a^^b"]));
    assert_eq!(split("^^^^", "^^^"), strings(&["", "^"]));
    assert_eq!(split("aaa", "aa"), strings(&["", "a"]));
    assert_eq!(split("aaaa", "aa"), strings(&["", "", ""]));
    assert_eq!(split("ab", "abc"), strings(&["ab"]));
    assert_eq!(split("xabcyabc", "abc"), strings(&["x", "y", ""]));
}

#[test]
fn splitting_at_nothing() {
    assert_eq!(split("", ""), strings(&["", ""]));
    assert_eq!(split("a", ""), strings(&["", "a", ""]));
    assert_eq!(split("abc", ""), strings(&["", "a", "b", "c", ""]));
    assert_eq!(split("äö", ""), strings(&["", "ä", "ö", ""]));
}

#[test]
fn splitting_as_the_standard_library_does() {
    for text in ["", "a", "a=b", "==a==b==", "aXXbXXXc", "XXXX", "XaXXa", "no separators here", "ä=ö"] {
        for sep in ["=", "X", "XX", "XXX", "a", "==", ""] {
            let expected: Vec<String> = text.split(sep).map(|p| p.to_string()).collect();
            assert_eq!(split(text, sep), expected, "{:?} at {:?}", text, sep);
        }
    }
}

#[test]
fn removing_a_part_everywhere() {
    assert_eq!(remove_all("$say hello $say there", "$say "), "hello there");
    assert_eq!(remove_all("aaa", "aa"), "a");
    assert_eq!(remove_all("abc", "x"), "abc");
    assert_eq!(remove_all("", "x"), "");
    assert_eq!(remove_all("xxx", "x"), "");
    assert_eq!(remove_all("abc", ""), "abc");
    assert_eq!(remove_all("", ""), "");
    for text in ["", "abcabc", "aXXbXXXc", "XXXX", "äö"] {
        for part in ["X", "XX", "abc", "bc", ""] {
            assert_eq!(remove_all(text, part), text.replace(part, ""));
        }
    }
}

#[test]
fn text_of_a_request_about_predictions() {
    assert_eq!(checkMessageValid("$predict -add it will rain"), "it will rain");
    assert_eq!(checkMessageValid("$predict -remove 3"), "3");
    assert_eq!(checkMessageValid("$predict -add "), "");
    assert_eq!(checkMessageValid("$predict -list"), "-list");
    assert_eq!(checkMessageValid("$predict -add -remove -add x"), "x");
    assert_eq!(checkMessageValid("$predict -a-remove dd y"), "-add y");
}

#[test]
fn lines_that_hold_a_prediction() {
    assert_eq!(
        read_record("7=42=it will rain=ann"),
        Ok((
            7,
            UserPrediction {
                user_id: 42,
                user_name: "ann".to_string(),
                prediction: "it will rain".to_string(),
            }
        ))
    );
    assert_eq!(
        read_record("0=0=="),
        Ok((0, UserPrediction { user_id: 0, user_name: "".to_string(), prediction: "".to_string() }))
    );
}

#[test]
fn lines_that_hold_no_prediction() {
    assert_eq!(read_record(""), Err(RecordError::Fields));
    assert_eq!(read_record("7=42=rain"), Err(RecordError::Fields));
    assert_eq!(read_record("7=42=a=b=c"), Err(RecordError::Fields));
    assert_eq!(read_record("x=42=rain=ann"), Err(RecordError::Number));
    assert_eq!(read_record("7=y=rain=ann"), Err(RecordError::Number));
    assert_eq!(read_record("7=-1=rain=ann"), Err(RecordError::Number));
    assert_eq!(read_record("99999999999999999999=1=rain=ann"), Err(RecordError::Number));
}

#[test]
fn offers() {
    let item = |n: &str| FnShop {
        url: format!("img/{}.png", n),
        name: n.to_string(),
        time: "1d".to_string(),
        price: "800".to_string(),
    };
    assert_eq!(formatItems(vec![]), None);
    assert_eq!(
        formatItems(vec![item("axe")]),
        Some(
            "https://fortnite.gg/img/axe.png\n\n**Name:** axe\n**Price:** 800\n**Time Remaining:** 1d\n^^^\n"
                .to_string()
        )
    );
    let two = formatItems(vec![item("axe"), item("hat")]).unwrap();
    assert_eq!(
        two,
        "https://fortnite.gg/img/axe.png\n\n**Name:** axe\n**Price:** 800\n**Time Remaining:** 1d\n^^^\nhttps://fortnite.gg/img/hat.png\n\n**Name:** hat\n**Price:** 800\n**Time Remaining:** 1d\n^^^\n"
    );
    let messages = splitMessage(two, DELIMITER);
    assert_eq!(messages.len(), 2);
    assert_eq!(
        messages[1],
        "https://fortnite.gg/img/hat.png\n\n**Name:** hat\n**Price:** 800\n**Time Remaining:** 1d"
    );
}

#[test]
fn messages_between_delimiters() {
    assert_eq!(splitMessage(" a ^^^\n b\t^^^   ^^^c".to_string(), "^^^"), strings(&["a", "b", "c"]));
    assert_eq!(splitMessage("".to_string(), "^^^"), strings(&[]));
    assert_eq!(splitMessage("^^^^^^".to_string(), "^^^"), strings(&[]));
    assert_eq!(splitMessage("  x  ".to_string(), "^^^"), strings(&["x"]));
    assert_eq!(splitMessage("\u{2003}x y\u{a0}".to_string(), "^^^"), strings(&["x y"]));
    assert_eq!(splitMessage("a b".to_string(), ""), strings(&["a", "b"]));
    assert_eq!(splitMessage("".to_string(), ""), strings(&[]));
    assert_eq!(splitMessage(" \n ".to_string(), ""), strings(&[]));
}

#[test]
fn video_links() {
    assert_eq!(
        video_id("$setvideo https://www.youtube.com/watch?v=dQw4w9WgXcQ"),
        Some("dQw4w9WgXcQ".to_string())
    );
    assert_eq!(
        video_id("$setvideo https://youtu.be/dQw4w9WgXcQ start=3"),
        Some("dQw4w9WgXcQ".to_string())
    );
    assert_eq!(video_id("$setvideo https://youtu.be/short"), None);
    assert_eq!(video_id("$setvideo dQw4w9WgXcQ"), None);
    assert_eq!(video_address("dQw4w9WgXcQ"), "https://www.youtube.com/watch?v=dQw4w9WgXcQ");
}

#[test]
fn failure_texts() {
    assert_eq!(errHandle(0), "No valid Youtube Link given!");
    assert_eq!(errHandle(1), "Unable to download Video!");
    assert_eq!(errHandle(2), "Unable to edit video, old video has been overwritten!");
    assert_eq!(errHandle(3), "Invalid Case! / Not Implemented!");
    assert_eq!(errHandle(255), "Invalid Case! / Not Implemented!");
    assert_eq!(set_response("ann"), "New video set!\nFor User: ann");
}

#[test]
fn clip_of_a_video() {
    let fresh = || VidInfo {
        name: "song".to_string(),
        v_length: 200,
        start: 0,
        u_length: 0,
        u_id: "".to_string(),
    };
    let mut vid = fresh();
    assert!(updateInfo(&mut vid, "$setvideo x start=30 length=7", 42));
    assert_eq!(
        vid,
        VidInfo {
            name: "song".to_string(),
            v_length: 200,
            start: 30,
            u_length: 7,
            u_id: "42".to_string()
        }
    );
    let mut vid = fresh();
    assert!(updateInfo(&mut vid, "$setvideo x", 42));
    assert_eq!((vid.start, vid.u_length), (0, 5));
    let mut vid = fresh();
    assert!(updateInfo(&mut vid, "$setvideo x start=500 length=50", 42));
    assert_eq!((vid.start, vid.u_length), (198, 2));
    let mut vid = fresh();
    vid.v_length = 1;
    let before = vid.clone();
    assert!(!updateInfo(&mut vid, "$setvideo x start=500", 42));
    assert_eq!(vid, before);
}

#[test]
fn download_texts() {
    assert_eq!(download_section(30, 7), "*0:00:30-0:00:37");
    assert_eq!(download_section(3600, 10), "*1:60:00-1:60:10");
    assert_eq!(
        download_command("./src/vid/42.mp3", "*0:00:30-0:00:37", "dQw4w9WgXcQ"),
        "yt-dlp -o ./src/vid/42.mp3 --download-sections *0:00:30-0:00:37 -x --audio-format mp3 -f bestaudio https://www.youtube.com/watch?v=dQw4w9WgXcQ --force-overwrites --force-keyframes-at-cuts"
    );
}

#[test]
fn offers_with_missing_parts() {
    assert_eq!(
        offer_from(None, None, None, None),
        FnShop {
            url: "No Image".to_string(),
            name: "No Name".to_string(),
            time: "Unknown Time Remaining".to_string(),
            price: "No Price".to_string(),
        }
    );
    assert_eq!(
        offer_from(
            Some("/img/a.png".to_string()),
            Some("axe".to_string()),
            Some("800".to_string()),
            Some("1d".to_string())
        ),
        FnShop {
            url: "/img/a.png".to_string(),
            name: "axe".to_string(),
            time: "1d".to_string(),
            price: "800".to_string(),
        }
    );
}
