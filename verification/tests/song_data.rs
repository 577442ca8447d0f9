use napoleon_amp_core::id_generator::Id;
use napoleon_amp_core::song::{Song, SONG_DATA_EXT_NO_PER};
use napoleon_amp_core::song_data::{
    Artist, ProbedTag, SongData, SongTagValue, TagKey, TagType, UNKNOWN_ALBUM_STR,
    UNKNOWN_ARTIST_STR,
};
use napoleon_amp_core::text::{chars_of, contains, lex_lt, split_chars, string_of};

fn id(n: u8) -> Id {
    Id { header: 0, increment: n, time: 0x0A0B, data: [n; 12] }
}

fn tag(key: TagKey, value: &str) -> ProbedTag {
    ProbedTag { key, value: value.to_string() }
}

fn text(s: &str) -> Vec<char> {
    s.chars().collect()
}

#[test]
fn default_song_data_is_unknown() {
    let data = SongData::default();
    assert_eq!(data.artist.artist_string, "Unknown Artist");
    assert_eq!(data.album, "Unknown Album");
    assert_eq!(data.title, "");
    assert!(data.custom_song_tags.is_empty());
    assert_eq!(UNKNOWN_ARTIST_STR, "Unknown Artist");
    assert_eq!(UNKNOWN_ALBUM_STR, "Unknown Album");
}

#[test]
fn artist_list_splits_at_slashes() {
    let artist = Artist::new("Queen/David Bowie/Annie Lennox".to_string());
    assert_eq!(artist.get_artist_list(), vec!["Queen", "David Bowie", "Annie Lennox"]);
    assert_eq!(artist.main_artist(), "Queen");

    let single = Artist::new("Queen".to_string());
    assert_eq!(single.get_artist_list(), vec!["Queen"]);
    assert_eq!(single.main_artist(), "Queen");

    let empty = Artist::new(String::new());
    assert_eq!(empty.get_artist_list(), vec![""]);
    assert_eq!(empty.main_artist(), "");

    let trailing = Artist::new("/AC/DC/".to_string());
    assert_eq!(trailing.get_artist_list(), vec!["", "AC", "DC", ""]);
    assert_eq!(trailing.main_artist(), "");
}

#[test]
fn split_and_join_give_the_text_back() {
    for source in ["", "a", ":", "a:b", "::", "title:abbey:road", "é:ü"] {
        let pieces = split_chars(&text(source), ':');
        let joined: Vec<String> = pieces.iter().map(|p| p.iter().collect()).collect();
        assert_eq!(joined.join(":"), source);
        assert_eq!(pieces.len(), source.matches(':').count() + 1);
    }
}

#[test]
fn chars_and_strings_convert_both_ways() {
    assert_eq!(chars_of("añb"), vec!['a', 'ñ', 'b']);
    assert_eq!(string_of(&vec!['a', 'ñ', 'b']), "añb");
    assert_eq!(chars_of(""), Vec::<char>::new());
}

#[test]
fn contains_finds_substrings() {
    assert!(contains("abbey road", "abbey"));
    assert!(contains("abbey road", "road"));
    assert!(contains("abbey road", "y r"));
    assert!(contains("abbey road", ""));
    assert!(contains("", ""));
    assert!(!contains("abbey road", "Abbey"));
    assert!(!contains("abbey road", "roads"));
    assert!(!contains("", "a"));
    assert!(contains("aab", "ab"));
}

#[test]
fn texts_are_ordered_by_code_points() {
    assert!(lex_lt(&text("abc"), &text("abd")));
    assert!(lex_lt(&text("ab"), &text("abc")));
    assert!(lex_lt(&text(""), &text("a")));
    assert!(lex_lt(&text("Z"), &text("a")));
    assert!(lex_lt(&text("z"), &text("é")));
    assert!(!lex_lt(&text("abc"), &text("abc")));
    assert!(!lex_lt(&text("b"), &text("abc")));
    assert!(!lex_lt(&text("a"), &text("")));
    for (a, b) in [("abc", "abd"), ("", "a"), ("Z", "a"), ("z", "é"), ("same", "same")] {
        assert_eq!(lex_lt(&text(a), &text(b)), a < b);
        assert_eq!(lex_lt(&text(b), &text(a)), b < a);
    }
}

#[test]
fn probed_tags_fill_the_fields_and_the_later_tag_stays() {
    let mut data = SongData::default();
    data.apply_probed_tags(&vec![
        tag(TagKey::Artist, "Queen"),
        tag(TagKey::Other, "1975"),
        tag(TagKey::TrackTitle, "First Title"),
        tag(TagKey::Album, "A Night at the Opera"),
        tag(TagKey::TrackTitle, "Bohemian Rhapsody"),
    ]);
    assert_eq!(data.artist.artist_string, "Queen");
    assert_eq!(data.album, "A Night at the Opera");
    assert_eq!(data.title, "Bohemian Rhapsody");
    assert!(data.custom_song_tags.is_empty());
}

#[test]
fn empty_artist_and_album_become_unknown() {
    let mut data = SongData {
        artist: Artist::new(String::new()),
        album: String::new(),
        title: String::new(),
        custom_song_tags: Vec::new(),
    };
    data.fill_unknowns();
    assert_eq!(data.artist.artist_string, "Unknown Artist");
    assert_eq!(data.album, "Unknown Album");
    assert_eq!(data.title, "");

    let mut kept = SongData {
        artist: Artist::new("Queen".to_string()),
        album: "Jazz".to_string(),
        title: "Bicycle Race".to_string(),
        custom_song_tags: Vec::new(),
    };
    kept.fill_unknowns();
    assert_eq!(kept.artist.artist_string, "Queen");
    assert_eq!(kept.album, "Jazz");
}

#[test]
fn sidecar_bytes_are_lengths_and_texts() {
    let data = SongData {
        artist: Artist::new("Qu".to_string()),
        album: "é".to_string(),
        title: String::new(),
        custom_song_tags: vec![(
            TagType::Dynamic("k".to_string()),
            SongTagValue::String("vw".to_string()),
        )],
    };
    let bytes = data.to_bytes();
    let expected: Vec<u8> = vec![
        2, 0, 0, 0, 0, 0, 0, 0, b'Q', b'u', // artist
        2, 0, 0, 0, 0, 0, 0, 0, 0xC3, 0xA9, // album
        0, 0, 0, 0, 0, 0, 0, 0, // title
        1, 0, 0, 0, 0, 0, 0, 0, // one tag
        1, 0, 0, 0, 0, 0, 0, 0, b'k', // key
        2, 0, 0, 0, 0, 0, 0, 0, b'v', b'w', // value
    ];
    assert_eq!(bytes, expected);
}

#[test]
fn sidecar_round_trip() {
    let data = SongData {
        artist: Artist::new("Queen/David Bowie".to_string()),
        album: "Hot Space".to_string(),
        title: "Under Pressure – 2011 Remaster".to_string(),
        custom_song_tags: vec![
            (TagType::Dynamic("mood".to_string()), SongTagValue::String("tense".to_string())),
            (TagType::Dynamic("".to_string()), SongTagValue::String("".to_string())),
        ],
    };
    let read = SongData::from_bytes(&data.to_bytes()).expect("decode");
    assert_eq!(read.artist.artist_string, "Queen/David Bowie");
    assert_eq!(read.album, "Hot Space");
    assert_eq!(read.title, "Under Pressure – 2011 Remaster");
    assert_eq!(read.custom_song_tags.len(), 2);
    match (&read.custom_song_tags[0].0, &read.custom_song_tags[0].1) {
        (TagType::Dynamic(key), SongTagValue::String(value)) => {
            assert_eq!(key, "mood");
            assert_eq!(value, "tense");
        }
    }
    let copy = read.clone();
    assert_eq!(copy.to_bytes(), data.to_bytes());
}

#[test]
fn sidecar_rejects_what_is_no_sidecar() {
    let good = SongData::default().to_bytes();
    assert!(SongData::from_bytes(&good).is_some());
    assert!(SongData::from_bytes(&[]).is_none());
    assert!(SongData::from_bytes(&good[..good.len() - 1]).is_none());
    let mut longer = good.clone();
    longer.push(0);
    assert!(SongData::from_bytes(&longer).is_none());
    // A text that is no UTF-8.
    let mut broken = good.clone();
    broken[8] = 0xFF;
    assert!(SongData::from_bytes(&broken).is_none());
    // A tag count that the bytes do not hold.
    let mut counted = good.clone();
    let at = counted.len() - 8;
    counted[at] = 3;
    assert!(SongData::from_bytes(&counted).is_none());
    // A text longer than the bytes.
    let mut long_text = good.clone();
    long_text[7] = 0xFF;
    assert!(SongData::from_bytes(&long_text).is_none());
}

#[test]
fn a_new_song_has_nothing_loaded() {
    let song = Song::new(id(3));
    assert_eq!(song.id, id(3));
    assert!(!song.has_loaded_song_data);
    assert_eq!(song.get_song_data().title, "");
    assert_eq!(song.audio_file_name(), "03-0A0B-030303030303030303030303.mp3");
    assert_eq!(song.data_file_name(), "03-0A0B-030303030303030303030303.snap");
    assert_eq!(SONG_DATA_EXT_NO_PER, "snap");
}

#[test]
fn song_data_comes_from_the_sidecar_where_it_can_be_read() {
    let stored = SongData {
        artist: Artist::new(String::new()),
        album: "Jazz".to_string(),
        title: "Bicycle Race".to_string(),
        custom_song_tags: Vec::new(),
    };
    let bytes = stored.to_bytes();
    let mut song = Song::new(id(1));
    let to_write = song.load_song_data(Some(&bytes), &vec![tag(TagKey::TrackTitle, "ignored")]);
    assert!(to_write.is_none());
    assert!(song.has_loaded_song_data);
    assert_eq!(song.get_song_data().title, "Bicycle Race");
    assert_eq!(song.get_song_data().album, "Jazz");
    assert_eq!(song.get_song_data().artist.artist_string, "Unknown Artist");
}

#[test]
fn song_data_falls_back_to_the_tags_and_then_to_unknown() {
    let tags = vec![tag(TagKey::TrackTitle, "Bicycle Race"), tag(TagKey::Album, "")];
    for sidecar in [None, Some(&[1u8, 2, 3][..])] {
        let mut song = Song::new(id(1));
        let to_write = song.load_song_data(sidecar, &tags).expect("bytes to write");
        assert_eq!(song.get_song_data().title, "Bicycle Race");
        assert_eq!(song.get_song_data().album, "Unknown Album");
        assert_eq!(song.get_song_data().artist.artist_string, "Unknown Artist");
        // What is written is what the tags gave, before the unknowns are filled in.
        let written = SongData::from_bytes(&to_write).expect("decode");
        assert_eq!(written.title, "Bicycle Race");
        assert_eq!(written.album, "");
        assert_eq!(written.artist.artist_string, "Unknown Artist");
    }
}

#[test]
fn song_data_is_read_once() {
    let mut song = Song::new(id(1));
    let first = vec![tag(TagKey::TrackTitle, "First")];
    let second = vec![tag(TagKey::TrackTitle, "Second")];
    {
        let (data, to_write) = song.get_or_load_song_data(None, &first);
        assert_eq!(data.title, "First");
        assert!(to_write.is_some());
    }
    {
        let (data, to_write) = song.get_or_load_song_data(None, &second);
        assert_eq!(data.title, "First");
        assert!(to_write.is_none());
    }
    song.get_or_load_song_data_mut(None, &second).title = "Edited".to_string();
    assert_eq!(song.get_song_data().title, "Edited");
}

#[test]
fn set_song_data_hands_back_the_sidecar() {
    let mut song = Song::new(id(1));
    let mut data = SongData::default();
    data.title = "Somebody to Love".to_string();
    let expected = data.to_bytes();
    let to_write = song.set_song_data(data);
    assert_eq!(to_write, expected);
    assert!(song.has_loaded_song_data);
    assert_eq!(song.get_song_data().title, "Somebody to Love");
    let copy = song.clone();
    assert!(copy.is_same_song(&song));
    assert_eq!(copy.get_song_data().title, "Somebody to Love");
    assert!(!copy.is_same_song(&Song::new(id(2))));
}
