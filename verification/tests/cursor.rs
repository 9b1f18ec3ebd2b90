use punktfunk_webos::cursor::{
    restore_on_exit, Command, Cursor, Making, PixelFormat, Sentinel, HOTSPOT_ARROW, HOTSPOT_BLANK,
    SENTINEL_SIZE,
};

#[test]
fn sentinels_are_made_one_after_the_other() {
    let mut making = Making::start();
    assert_eq!(
        making,
        Making::Surface {
            sentinel: Sentinel::Blank,
            format: PixelFormat::Argb8888
        }
    );
    making = making.next(false);
    assert_eq!(
        making,
        Making::Surface {
            sentinel: Sentinel::Blank,
            format: PixelFormat::Rgba32
        }
    );
    assert_eq!(making.next(false), Making::Unavailable);
    making = making.next(true);
    assert_eq!(
        making,
        Making::Cursor {
            sentinel: Sentinel::Blank
        }
    );
    assert_eq!(making.next(false), Making::Unavailable);
    making = making.next(true).next(true);
    assert_eq!(
        making,
        Making::Cursor {
            sentinel: Sentinel::Arrow
        }
    );
    making = making.next(true);
    assert_eq!(making, Making::Ready);
    assert_eq!(making.next(false), Making::Ready);
    assert_eq!(Making::Unavailable.next(true), Making::Unavailable);
}

#[test]
fn hotspots_are_the_reserved_ones() {
    assert_eq!(Sentinel::Blank.hotspot(), 254);
    assert_eq!(Sentinel::Arrow.hotspot(), 255);
    assert_eq!((HOTSPOT_BLANK, HOTSPOT_ARROW), (254, 255));
    assert_eq!(SENTINEL_SIZE, 256);
}

#[test]
fn capture_blanks_and_goes_relative() {
    let mut cursor = Cursor::new(true);
    assert!(!cursor.is_captured());
    assert_eq!(
        cursor.set_captured(true),
        vec![
            Command::ShowCursor(true),
            Command::SetSentinel(Sentinel::Blank),
            Command::RelativeMode(true),
        ]
    );
    assert!(cursor.is_captured());
    assert_eq!(
        cursor.disable_sdl_relative(),
        vec![
            Command::ShowCursor(true),
            Command::SetSentinel(Sentinel::Blank),
            Command::RelativeMode(false),
        ]
    );
    assert_eq!(
        cursor.set_captured(false),
        vec![
            Command::ShowCursor(true),
            Command::SetSentinel(Sentinel::Arrow),
            Command::RelativeMode(false),
        ]
    );
    assert_eq!(
        cursor.enable_sdl_relative(),
        vec![
            Command::ShowCursor(true),
            Command::SetSentinel(Sentinel::Arrow),
            Command::RelativeMode(false),
        ]
    );
    assert_eq!(cursor.apply().len(), 3);
    assert_eq!(cursor.apply_lsm_hotspot().len(), 2);
}

#[test]
fn without_sentinels_the_cursor_is_hidden() {
    let mut cursor = Cursor::new(false);
    assert_eq!(
        cursor.set_captured(true),
        vec![
            Command::ShowCursor(true),
            Command::ShowCursor(false),
            Command::RelativeMode(true),
        ]
    );
    assert_eq!(
        cursor.set_captured(false),
        vec![
            Command::ShowCursor(true),
            Command::ShowCursor(true),
            Command::RelativeMode(false),
        ]
    );
}

#[test]
fn hiding_again_does_nothing_while_uncaptured() {
    let mut cursor = Cursor::new(true);
    assert_eq!(cursor.reassert_hidden(), vec![]);
    assert_eq!(cursor.on_pointer_activity(), vec![]);
    cursor.set_captured(true);
    let blank = vec![
        Command::ShowCursor(true),
        Command::SetSentinel(Sentinel::Blank),
    ];
    assert_eq!(cursor.reassert_hidden(), blank);
    assert_eq!(cursor.on_pointer_activity(), blank);
}

#[test]
fn leaving_restores_the_arrow() {
    assert_eq!(
        restore_on_exit(true),
        vec![Command::SetSentinel(Sentinel::Arrow)]
    );
    assert_eq!(restore_on_exit(false), vec![]);
}

#[test]
fn warping_names_the_point() {
    assert_eq!(
        Cursor::new(true).warp_abs(960, 540),
        Command::Warp { x: 960, y: 540 }
    );
}
