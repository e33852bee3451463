use pp_engine::avatar::AvatarUser;
use pp_engine::distance::{levenshtein_distance, Matrix};
use pp_engine::embeds::{Author, BGStartEmbed, BasicEmbedData, Footer, RankEmbed, TwitchStream};
use pp_engine::mixer::{Channel, GameType, MixerError, Resource, User};
use pp_engine::perf::PerfValue;
use pp_engine::weighted_list::WeightedList;

/// The four-decimal fixed-point key of a raw quantity.
fn key_of(raw: f64) -> PerfValue {
    let whole = raw.trunc() as u32;
    let frac = ((raw - raw.trunc()) * 10_000.0).round() as u32;
    PerfValue::from_parts(whole, frac.min(9_999))
}

#[test]
fn fixed_point_keys_order_as_raw_values() {
    // For raw values a < b the keys compare as key(a) <= key(b).
    let raws = [0.0, 0.0001, 0.99995, 1.0, 1.0001, 12.3456, 12.3457, 730.0, 731.25];
    for i in 0..raws.len() {
        for j in i..raws.len() {
            let a = key_of(raws[i]);
            let b = key_of(raws[j]);
            assert!(a.le(b), "keys must follow the raw order");
        }
    }
}

#[test]
fn fixed_point_parts_round_trip() {
    let v = PerfValue::from_parts(731, 2500);
    assert_eq!(v.units, 7_312_500);
    assert_eq!(v.whole(), 731);
    assert_eq!(v.frac(), 2500);
}

#[test]
fn weighted_list_sorts_descending() {
    let vals = vec![100u64, 900, 500, 900, 50];
    let list = WeightedList::from_values(&vals).unwrap();
    let mut expect = vals.clone();
    expect.sort_unstable_by(|a, b| b.cmp(a));
    assert_eq!(list.values, expect);
}

#[test]
fn weighted_list_rejects_over_capacity() {
    let vals: Vec<u64> = (0..101u64).collect();
    assert!(WeightedList::from_values(&vals).is_none());
}

#[test]
fn weighted_list_rejects_out_of_range_value() {
    let vals = vec![10_000_000_001u64];
    assert!(WeightedList::from_values(&vals).is_none());
}

#[test]
fn weighted_total_small_list_exact() {
    // 2.0000 and 1.0000: total = 2 + 0.95 * 1 = 2.95 points.
    let vals = vec![20_000u64, 10_000];
    let list = WeightedList::from_values(&vals).unwrap();
    assert_eq!(list.total(0), 29_500);
    assert_eq!(list.total(100), 29_600);
}

#[test]
fn edit_distance_classic_cases() {
    assert_eq!(levenshtein_distance("kitten", "sitting"), 3);
    assert_eq!(levenshtein_distance("flaw", "lawn"), 2);
    assert_eq!(levenshtein_distance("", "abc"), 3);
    assert_eq!(levenshtein_distance("abc", ""), 3);
    assert_eq!(levenshtein_distance("same", "same"), 0);
    assert_eq!(levenshtein_distance("a", "b"), 1);
}

#[test]
fn matrix_starts_zeroed() {
    let m = Matrix::new(3, 4);
    assert_eq!(m.width, 4);
    assert_eq!(m.vec.len(), 12);
    assert!(m.vec.iter().all(|&v| v == 0));
}

#[test]
fn twitch_notification_fields() {
    let stream = TwitchStream {
        username: String::from("badewanne3"),
        title: String::from("practicing stream maps"),
        thumbnail_url: String::from("https://example.invalid/thumb.jpg"),
    };
    let data = BasicEmbedData::create_twitch_stream_notif(&stream);
    assert_eq!(data.author_text.as_deref(), Some("Now live on twitch:"));
    assert_eq!(data.title_text.as_deref(), Some("badewanne3"));
    assert_eq!(
        data.title_url.as_deref(),
        Some("https://www.twitch.tv/badewanne3")
    );
    assert_eq!(
        data.image_url.as_deref(),
        Some("https://example.invalid/thumb.jpg")
    );
    assert_eq!(data.description.as_deref(), Some("practicing stream maps"));
    assert!(data.fields.is_none());
}

#[test]
fn embed_default_is_empty() {
    let data = BasicEmbedData::default();
    assert!(data.author_text.is_none());
    assert!(data.title_text.is_none());
    assert!(data.description.is_none());
}

#[test]
fn bg_start_embed_prompt() {
    let embed = BGStartEmbed::new();
    assert_eq!(embed.title, "React to include tag, unreact to exclude tag");
    assert!(!embed.description.is_empty());
}

#[test]
fn avatar_user_accessors() {
    let discord = AvatarUser::Discord {
        name: String::from("someone#1234"),
        url: String::from("https://cdn.example.invalid/a.png"),
    };
    assert_eq!(discord.name(), "someone#1234");
    assert_eq!(discord.url(), "https://cdn.example.invalid/a.png");
    let osu = AvatarUser::Osu {
        name: String::from("badewanne3"),
        url: String::from("https://a.example.invalid/2211396"),
    };
    assert_eq!(osu.name(), "badewanne3");
    assert_eq!(osu.url(), "https://a.example.invalid/2211396");
}

#[test]
fn rank_embed_holds_its_parts() {
    let embed = RankEmbed {
        description: String::from("missing 200.00 raw pp"),
        title: String::from("How many pp is badewanne3 missing to reach rank #1?"),
        thumbnail: String::from("https://a.example.invalid/2211396"),
        author: Author {
            name: String::from("badewanne3: 6,000pp (#123 DE45)"),
            url: None,
            icon_url: None,
        },
    };
    assert!(embed.title.contains("rank #1"));
    let footer = Footer { text: String::from("Page 1/1"), icon_url: None };
    assert_eq!(footer.text, "Page 1/1");
}

#[test]
fn mixer_models_hold_their_fields() {
    let user = User {
        id: 1,
        level: 10,
        username: String::from("streamer"),
        experience: 400,
        avatar_url: None,
    };
    let channel = Channel {
        id: 7,
        user_id: 1,
        name: String::from("streamer"),
        user,
        online: true,
        title: String::from("late night games"),
        banner_url: None,
        thumbnail: Some(Resource { id: 3, url: String::from("https://example.invalid/t.jpg") }),
        cover: None,
        badge: None,
        game: Some(GameType {
            id: 9,
            name: String::from("rhythm game"),
            cover_url: None,
            background_url: None,
        }),
    };
    assert!(channel.online);
    assert_eq!(channel.user.username, "streamer");
    assert_eq!(channel.game.as_ref().unwrap().name, "rhythm game");
    let err = MixerError { id: 401, message: String::from("unauthorized") };
    assert_eq!(err, MixerError { id: 401, message: String::from("unauthorized") });
}
