use micro_jam_engine::pattern::redraw;

fn texture(x: usize, y: usize) -> u32 {
    let red = (x & 0xff) ^ (y & 0xff);
    let green = (x & 0x7f) ^ (y & 0x7f);
    let blue = (x & 0x3f) ^ (y & 0x3f);
    (blue | (green << 8) | (red << 16)) as u32
}

#[test]
fn texture_without_the_rectangle() {
    let (w, h) = (300usize, 260usize);
    let mut buffer = vec![0xDEAD_BEEFu32; w * h];
    redraw(&mut buffer, w, h, false);
    assert_eq!(buffer[0], 0);
    assert_eq!(buffer[1], 0x010101);
    assert_eq!(buffer[255], 0xFF7F3F);
    assert_eq!(buffer[256], 0);
    assert_eq!(buffer[w], 0x010101);
    assert_eq!(buffer[150 * w + 150], 0);
    assert_eq!(buffer[3 * w + 5], 0x060606);
    assert_eq!(buffer[200 * w + 100], 0xAC2C2C);
    for (i, p) in buffer.iter().enumerate() {
        assert_eq!(*p, texture(i % w, i / w));
    }
}

#[test]
fn rectangle_is_inset_by_a_hundred() {
    let (w, h) = (300usize, 260usize);
    let mut buffer = vec![0u32; w * h];
    redraw(&mut buffer, w, h, true);
    for (i, p) in buffer.iter().enumerate() {
        let (x, y) = (i % w, i / w);
        let inside = x >= 100 && x < 200 && y >= 100 && y < 160;
        assert_eq!(*p, if inside { 0x00FF_FFFF } else { texture(x, y) });
    }
    assert_eq!(buffer[100 * w + 100], 0x00FF_FFFF);
    assert_eq!(buffer[159 * w + 199], 0x00FF_FFFF);
    assert_eq!(buffer[160 * w + 199], texture(199, 160));
    assert_eq!(buffer[99 * w + 100], texture(100, 99));
}

#[test]
fn small_window_has_no_rectangle() {
    let (w, h) = (150usize, 120usize);
    let mut with = vec![0u32; w * h];
    let mut without = vec![0u32; w * h];
    redraw(&mut with, w, h, true);
    redraw(&mut without, w, h, false);
    assert_eq!(with, without);
    // Wide enough but not high enough, and the other way round.
    let mut flat = vec![0u32; 300 * 150];
    redraw(&mut flat, 300, 150, true);
    assert!(flat.iter().all(|p| *p != 0x00FF_FFFF));
    let mut tall = vec![0u32; 150 * 300];
    redraw(&mut tall, 150, 300, true);
    assert_eq!(tall[150 * 150 + 120], texture(120, 150));
}

#[test]
fn buffer_is_read_as_rows_whatever_the_height() {
    // A buffer longer than the window: the rows go on below it.
    let mut buffer = vec![7u32; 10];
    redraw(&mut buffer, 4, 1, true);
    assert_eq!(buffer, vec![0, 0x010101, 0x020202, 0x030303, 0x010101, 0, 0x030303, 0x020202, 0x020202, 0x030303]);
    // A buffer shorter than the window.
    let mut buffer = vec![7u32; 3];
    redraw(&mut buffer, 4, 4, false);
    assert_eq!(buffer, vec![0, 0x010101, 0x020202]);
}

#[test]
fn empty_buffer_needs_no_width() {
    let mut buffer: Vec<u32> = Vec::new();
    redraw(&mut buffer, 0, 0, true);
    redraw(&mut buffer, 0, 5, false);
    assert!(buffer.is_empty());
}
