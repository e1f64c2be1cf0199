use roosty_clockd::builder::{AlarmBuilder, Theme};
use roosty_clockd::config::{Alarm, Collection, Sound, Volume};
use roosty_clockd::time::{ClockTime, TimeOfDay};

fn form(name: &str, hour: u8, minute: u8, half: TimeOfDay) -> AlarmBuilder {
    AlarmBuilder {
        name: name.to_string(),
        hour,
        minute,
        time_of_day: half,
        sound: "rain".to_string(),
        volume: Volume::new(70).unwrap(),
        id: 12,
    }
}

fn stored(id: u64, hour: u32) -> Alarm {
    Alarm {
        name: Some("tea".to_string()),
        time: ClockTime::from_hms_opt(hour, 15, 0).unwrap(),
        volume: Volume::new(30).unwrap(),
        sound: "ring".to_string(),
        enabled: true,
        rang_today: false,
        id,
    }
}

#[test]
fn theme_flips() {
    assert_eq!(Theme::Dark.not(), Theme::Light);
    assert_eq!(Theme::Light.not(), Theme::Dark);
    assert_eq!(Theme::default(), Theme::Dark);
}

#[test]
fn build_reads_the_dial() {
    let a = form("tea", 5, 15, TimeOfDay::PM).build().unwrap();
    assert_eq!(a.time, ClockTime::from_hms_opt(17, 15, 0).unwrap());
    assert_eq!(a.name, Some("tea".to_string()));
    assert_eq!(a.sound, "rain");
    assert_eq!(a.volume.percent(), 70);
    assert!(a.enabled);
    assert!(!a.rang_today);
    assert_eq!(a.id, 12);
    let a = form("", 12, 0, TimeOfDay::AM).build().unwrap();
    assert_eq!(a.time, ClockTime::midnight());
    assert_eq!(a.name, None);
    let a = form("", 12, 0, TimeOfDay::PM).build().unwrap();
    assert_eq!(a.time, ClockTime::from_hms_opt(12, 0, 0).unwrap());
}

#[test]
fn build_refuses_what_is_no_time() {
    assert_eq!(form("x", 13, 0, TimeOfDay::PM).build(), None);
    assert_eq!(form("x", 5, 60, TimeOfDay::AM).build(), None);
    assert!(form("x", 13, 0, TimeOfDay::AM).build().is_some());
}

#[test]
fn a_form_made_from_an_alarm_builds_that_alarm() {
    for hour in 0..24u32 {
        let b = AlarmBuilder::from_alarm(stored(4, hour));
        assert!(b.hour < 12);
        assert_eq!(b.build(), Some(stored(4, hour)));
    }
    let mut nameless = stored(4, 7);
    nameless.name = None;
    let b = AlarmBuilder::from_alarm(nameless);
    assert_eq!(b.name, "");
}

#[test]
fn a_new_form_shows_the_given_time() {
    let b = AlarmBuilder::starting_at(ClockTime::from_hms_opt(0, 42, 9).unwrap(), "ring".to_string());
    assert_eq!(b, AlarmBuilder {
        name: String::new(),
        hour: 12,
        minute: 42,
        time_of_day: TimeOfDay::AM,
        sound: "ring".to_string(),
        volume: Volume::full(),
        id: 0,
    });
    let b = AlarmBuilder::starting_at(ClockTime::from_hms_opt(15, 1, 0).unwrap(), "ring".to_string());
    assert_eq!((b.hour, b.minute, b.time_of_day), (3, 1, TimeOfDay::PM));
}

#[test]
fn from_vec_keeps_the_later_of_two_items_with_one_id() {
    let c = Collection::from_vec(vec![stored(1, 1), stored(2, 2), stored(1, 3)]);
    assert_eq!(c.data.len(), 2);
    assert_eq!(c.data[&1], stored(1, 3));
    assert_eq!(c.data[&2], stored(2, 2));
    let empty: Collection<Alarm> = Collection::from_vec(Vec::new());
    assert!(empty.data.is_empty());
}

#[test]
fn label_shows_name_and_file_name() {
    let s = Sound::new("gong".to_string(), "/home/me/sounds/big gong.mp3".to_string());
    assert_eq!(s.label(), "gong:big gong.mp3");
    assert_eq!(Sound::ring().label(), "ring:ring.mp3");
    let s = Sound::new("x".to_string(), "dir/".to_string());
    assert_eq!(s.label(), "x:");
    let s = Sound::new("é".to_string(), "päth/ö.ogg".to_string());
    assert_eq!(s.label(), "é:ö.ogg");
}
