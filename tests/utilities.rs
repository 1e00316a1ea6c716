use abes_nice_things::progress_bar::{eta_parts, BarLayout, ProgressBar, Rate, Timer};
use abes_nice_things::input::yes_no;
use abes_nice_things::as_from::{AsFrom, AsInto, AsTryFrom, Either};
use abes_nice_things::file_ops::{Directory, FileOptions, FileType};
use abes_nice_things::nvec::NVec;
use abes_nice_things::split::{recombine, ReadHalf, WriteHalf};
use abes_nice_things::{u8_decode, u8_encode};

#[test]
fn bools_pack_into_a_byte() {
    let bools = [true, false, false, false, true, false, true, true];
    let compressed = u8_encode(bools);
    assert_eq!(compressed, 0b1101_0001);
    assert_eq!(bools, u8_decode(compressed));
    assert_eq!(u8_decode(0), [false; 8]);
    assert_eq!(u8_encode([true; 8]), 255);
}

#[test]
fn equivalence() {
    let values = [("toml", FileType::Toml), ("bin", FileType::Bin)];
    for (key, value) in values.iter() {
        let path = "test.".to_owned() + key;
        let file_type: FileType = FileType::from_path(&path);
        assert_eq!(&file_type, value, "FileType generation from path was incorrect")
    }
}

#[test]
fn toml() {
    assert_eq!(FileType::from_path("test.toml"), FileType::Toml, "from_path created incorrect value");
}

#[test]
fn bin() {
    assert_eq!(FileType::from_path("test.bin"), FileType::Bin, "from_path created incorrect value");
}

#[test]
fn nested_paths_use_the_last_extension() {
    assert_eq!(FileType::from_path("saves/world.bin.toml"), FileType::Toml);
    assert_eq!(FileType::from_path("config.toml/state.bin"), FileType::Bin);
}

#[test]
fn file_options_setters() {
    let mut options = FileOptions::new();
    assert!(options.create_missing_files && options.truncate_existing_files);
    assert_eq!(options.start_location, Directory::new());
    options
        .create_missing_directories(false)
        .truncate_existing_files(false);
    options.create_missing_files(false).reset_on_invalid_deserialization(false);
    assert_eq!(
        options,
        FileOptions {
            create_missing_directories: false,
            create_missing_files: false,
            reset_invalid_deserialization: false,
            truncate_existing_files: false,
            start_location: Directory::Unset,
        }
    );
}

#[test]
fn nvec_row_major_lookup() {
    let mut grid: NVec<u32, 2> = NVec::new();
    assert!(grid.get_inner().is_empty());
    grid.set_inner((0..6).collect(), &[2, 3]);
    assert_eq!(*grid.get(&[0, 0]), 0);
    assert_eq!(*grid.get(&[0, 2]), 2);
    assert_eq!(*grid.get(&[1, 0]), 3);
    assert_eq!(*grid.get(&[1, 2]), 5);
    *grid.get_mut(&[1, 1]) = 40;
    assert_eq!(grid.get_inner(), &vec![0, 1, 2, 3, 40, 5]);
    grid.clear();
    assert!(grid.get_inner().is_empty());
}

#[test]
fn halves_recombine_only_with_their_source() {
    let read = ReadHalf::new_id(vec![1u8], 4);
    let write = WriteHalf::new_id(vec![1u8], 4);
    assert_eq!(read.get_id(), Some(4));
    assert_eq!(recombine(read, write), Some(vec![1u8]));
    let read = ReadHalf::new_id(vec![2u8], 4);
    let write = WriteHalf::new_id(vec![2u8], 5);
    assert!(!read.same_source(&write));
    assert_eq!(recombine(read, write), None);
}

#[test]
fn unbound_halves_give_back_their_value() {
    let write = WriteHalf::new(vec![3u8]);
    assert_eq!(write.get_id(), None);
    assert_eq!(write.get(), Some(vec![3u8]));
    assert_eq!(ReadHalf::new(7u8).get(), Some(7));
    assert_eq!(ReadHalf::new_id(7u8, 1).get(), None);
}

#[test]
fn conversions_keep_the_shape() {
    let some: Option<u64> = Option::as_from(Some(5u32));
    assert_eq!(some, Some(5u64));
    let none: Option<u64> = None::<u32>.as_into();
    assert_eq!(none, None);
    let ok: Result<i64, String> = Result::as_from(Ok::<i32, &str>(-3));
    assert_eq!(ok, Ok(-3));
    let err: Result<i64, String> = Result::as_from(Err::<i32, &str>("bad"));
    assert_eq!(err, Err("bad".to_string()));
    match Either::<u64, String>::as_from(Either::<u8, &str>::new_u("x")) {
        Either::U(s) => assert_eq!(s, "x"),
        Either::T(_) => panic!("variant changed"),
    }
}

#[test]
fn fallible_conversions_report_which_side_failed() {
    let fit: Result<Option<u8>, _> = Option::<u8>::as_try_from(Some(200u32));
    assert_eq!(fit, Ok(Some(200)));
    assert!(Option::<u8>::as_try_from(Some(300u32)).is_err());
    match Result::<u8, u8>::as_try_from(Err::<u32, u32>(999)) {
        Err(Either::U(_)) => {},
        _ => panic!("error side should have failed"),
    }
    assert_eq!(Result::<u8, u8>::as_try_from(Ok::<u32, u32>(1)).ok(), Some(Ok(1)));
}

#[test]
fn unknown_extensions_name_no_type() {
    assert_eq!(FileType::of_path("notes.txt"), None);
    assert_eq!(FileType::of_path(".toml"), None);
    assert_eq!(FileType::of_path("dir/.bin"), None);
    assert_eq!(FileType::of_path("toml"), None);
    assert_eq!(FileType::of_path("a.toml"), Some(FileType::Toml));
}

#[test]
fn yes_no_answers() {
    assert_eq!(yes_no("y"), Some(true));
    assert_eq!(yes_no("n"), Some(false));
    assert_eq!(yes_no("yes"), None);
    assert_eq!(yes_no(""), None);
}

#[test]
fn progress_bar_layout() {
    let mut bar = ProgressBar::new(0, 10, 20);
    assert_eq!(bar.layout(), BarLayout { done: 0, header: false, waiting: 20 });
    bar.set(5);
    assert_eq!(bar.current, 5);
    assert_eq!(bar.layout(), BarLayout { done: 9, header: true, waiting: 10 });
    bar.set(10);
    assert_eq!(bar.layout(), BarLayout { done: 19, header: true, waiting: 0 });
    let small = ProgressBar::new(1, 3, 2);
    assert_eq!(small.layout(), BarLayout { done: 0, header: false, waiting: 2 });
    assert_eq!(bar.rate, None::<Rate>);
    assert_eq!(bar.timer, Timer::MostRecent);
}

#[test]
fn eta_splits_days_and_hours() {
    assert_eq!(eta_parts(0), (0, 0, 0));
    assert_eq!(eta_parts(3725), (0, 1, 125));
    assert_eq!(eta_parts(2 * 86400 + 5 * 3600 + 59), (2, 5, 59));
}
