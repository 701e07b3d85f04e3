use ctc_notify::video::divmod;
use ctc_notify::video::Video;

#[test]
fn test_video_simon() {
    let video_id = "029cB7l4qLg";
    let video = Video::new(
        video_id,
        "The Sudoku Anniversary Sequel",
        "PT1H14M27S",
        "Play it at https://app.crackingthecryptic.com/sudoku/QgtR8b9Mr2 today!",
    );
    let expected = Video {
        title: "The Sudoku Anniversary Sequel".into(),
        sudoku_link: "https://app.crackingthecryptic.com/sudoku/QgtR8b9Mr2".into(),
        duration_secs: 3600 + 14 * 60 + 27,
        youtube_id: video_id.into(),
    };
    assert_eq!(expected, video);
}

#[test]
fn test_video_mark() {
    let video_id = "RpMzNFA2W2c";
    let video = Video::new(
        video_id,
        "Sudoku for a Happy Hippo",
        "PT37M45S",
        "Solve along at https://tinyurl.com/CenterOfTheMoat with us",
    );
    let expected = Video {
        title: "Sudoku for a Happy Hippo".into(),
        sudoku_link: "https://tinyurl.com/CenterOfTheMoat".into(),
        duration_secs: 37 * 60 + 45,
        youtube_id: video_id.into(),
    };
    assert_eq!(expected, video);
}

#[test]
fn divmod_splits() {
    assert_eq!(divmod(5707, 3600), (1, 2107));
    assert_eq!(divmod(2107, 60), (35, 7));
    assert_eq!(divmod(59, 60), (0, 59));
}

#[test]
fn time_is_unpadded() {
    let v = Video::new("id1", "t", "PT1H5M7S", "");
    assert_eq!(v.duration_secs, 3907);
    assert_eq!(v.time(), "1:5:7");
}

#[test]
fn time_of_zero() {
    let v = Video::new("id1", "t", "PT", "");
    assert_eq!(v.time(), "0:0:0");
}

#[test]
fn message_format() {
    let v = Video::new(
        "V2",
        "New Puzzle",
        "PT37M45S",
        "see https://tinyurl.com/Abc123 for the puzzle",
    );
    assert_eq!(
        v.message(),
        "The latest video New Puzzle (https://www.youtube.com/watch?v=V2) for \
         https://tinyurl.com/Abc123 took 0:37:45."
    );
}

#[test]
fn missing_fields_degrade() {
    let v = Video::new("V9", "", "bogus", "no url here");
    assert_eq!(v.title, "");
    assert_eq!(v.duration_secs, 0);
    assert_eq!(v.sudoku_link, "");
    assert_eq!(v.youtube_id, "V9");
}
