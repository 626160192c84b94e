use omnitext::chunk::{LISTType, ListCount, RiffChunk, RiffChunkHeader};
use omnitext::decode::{read_chunk, read_chunks, OmniParseError};
use omnitext::lower::LowerError;
use omnitext::object::MxObType;
use omnitext::omni::Omni;
use omnitext::order::Text;
use omnitext::render::Fragment;
use omnitext::text::{BlockType, Statement};

fn u16le(v: u16) -> Vec<u8> {
    v.to_le_bytes().to_vec()
}

fn u32le(v: u32) -> Vec<u8> {
    v.to_le_bytes().to_vec()
}

fn f64le(v: f64) -> Vec<u8> {
    v.to_le_bytes().to_vec()
}

fn chunk(tag: &[u8; 4], body: &[u8]) -> Vec<u8> {
    let mut v = tag.to_vec();
    v.extend(u32le(body.len() as u32));
    v.extend_from_slice(body);
    if body.len() % 2 == 1 {
        v.push(0);
    }
    v
}

fn cstr(s: &str) -> Vec<u8> {
    let mut v = s.as_bytes().to_vec();
    v.push(0);
    v
}

struct Obj {
    kind: u16,
    presenter: &'static str,
    name: &'static str,
    id: u32,
    flags: u32,
    start: i32,
    duration: i32,
    loops: i32,
    location: [f64; 3],
    direction: [f64; 3],
    up: [f64; 3],
    extra: &'static str,
}

fn plain(kind: u16, name: &'static str, id: u32) -> Obj {
    Obj {
        kind,
        presenter: "",
        name,
        id,
        flags: 2,
        start: 0,
        duration: 0,
        loops: 1,
        location: [0.0, 0.0, 0.0],
        direction: [0.0, 0.0, 1.0],
        up: [0.0, 1.0, 0.0],
        extra: "",
    }
}

fn attrs_bytes(o: &Obj) -> Vec<u8> {
    let mut v = u16le(o.kind);
    v.extend(cstr(o.presenter));
    v.extend(u32le(0));
    v.extend(cstr(o.name));
    v.extend(u32le(o.id));
    v.extend(u32le(o.flags));
    v.extend(u32le(o.start as u32));
    v.extend(u32le(o.duration as u32));
    v.extend(u32le(o.loops as u32));
    for x in o.location.iter().chain(o.direction.iter()).chain(o.up.iter()) {
        v.extend(f64le(*x));
    }
    if o.extra.is_empty() {
        v.extend(u16le(0));
    } else {
        let e = cstr(o.extra);
        v.extend(u16le(e.len() as u16));
        v.extend(e);
    }
    v
}

fn file_bytes(filename: &str, format: &[u8; 4], record: &[u8]) -> Vec<u8> {
    let mut v = cstr(filename);
    v.extend(u32le(0));
    v.extend(u32le(0));
    v.extend(u32le(0));
    v.extend_from_slice(format);
    v.extend_from_slice(record);
    v
}

fn sound(o: &Obj, filename: &str, volume: i32) -> Vec<u8> {
    let mut v = attrs_bytes(o);
    let mut rec = u32le(0);
    rec.extend(u32le(0));
    rec.extend(u32le(volume as u32));
    v.extend(file_bytes(filename, b" WAV", &rec));
    chunk(b"MxOb", &v)
}

fn object3d(o: &Obj, filename: &str) -> Vec<u8> {
    let mut v = attrs_bytes(o);
    let mut rec = u32le(0);
    rec.extend(u32le(0));
    v.extend(file_bytes(filename, b" OBJ", &rec));
    chunk(b"MxOb", &v)
}

fn container(buffer_size: i32, buffer_count: i32, offsets: &[u32], streams: &[Vec<u8>]) -> Vec<u8> {
    let mut hd = u16le(2);
    hd.extend(u16le(2));
    hd.extend(u32le(buffer_size as u32));
    hd.extend(u32le(buffer_count as u32));
    let mut of = u32le(offsets.len() as u32);
    for o in offsets {
        of.extend(u32le(*o));
    }
    let mut list = b"MxSt".to_vec();
    for s in streams {
        list.extend_from_slice(s);
    }
    let mut body = b"OMNI".to_vec();
    body.extend(chunk(b"MxHd", &hd));
    body.extend(chunk(b"MxOf", &of));
    body.extend(chunk(b"LIST", &list));
    chunk(b"RIFF", &body)
}

fn join(frags: &[Fragment]) -> String {
    let mut s = String::new();
    for f in frags {
        match f {
            Fragment::Text(t) => s.push_str(t),
            Fragment::Double(b) => s.push_str(&format!("{}", f64::from_bits(*b))),
        }
    }
    s
}

fn render(data: &[u8]) -> String {
    let omni = Omni::parse(data).ok().expect("decodes");
    let text = Text::from_omni(&omni).ok().expect("lowers");
    join(&text.collect())
}

#[test]
fn odd_length_reads_back_even() {
    assert_eq!(RiffChunkHeader::from_raw(5).size, 6);
    assert_eq!(RiffChunkHeader::from_raw(4).size, 4);
    assert_eq!(RiffChunkHeader::from_raw(0).size, 0);
    assert_eq!(RiffChunkHeader::from_raw(u32::MAX).size, 1u64 << 32);
}

#[test]
fn odd_pad_chunk_is_padded_to_even() {
    let mut data = b"pad ".to_vec();
    data.extend(u32le(3));
    data.extend([1, 2, 3, 0]);
    let c = read_chunk(&data, 0, 0x10000).ok().expect("reads");
    assert_eq!(c.get_size(), 4);
}

#[test]
fn header_straddling_a_buffer_edge_is_skipped() {
    // A 12-byte chunk, then four bytes that would be a header crossing the
    // 16-byte buffer edge, then a chunk at the start of the next buffer.
    let mut data = chunk(b"pad ", &[9, 9, 9, 9]);
    data.extend_from_slice(b"JUNK");
    data.extend(chunk(b"pad ", &[7, 7]));
    assert_eq!(data.len(), 26);
    let v = read_chunks(&data, 0, 26, 16).ok().expect("reads");
    assert_eq!(v.len(), 2);
    match &v[1] {
        RiffChunk::Pad(p) => assert_eq!(p.data, vec![7, 7]),
        _ => panic!("expected padding"),
    }
}

#[test]
fn without_the_skip_the_junk_would_be_read() {
    let mut data = chunk(b"pad ", &[9, 9, 9, 9]);
    data.extend_from_slice(b"JUNK");
    data.extend(chunk(b"pad ", &[7, 7]));
    let r = read_chunks(&data, 0, 26, 0x10000);
    assert!(matches!(r, Err(OmniParseError::UnknownChunk(id)) if &id.value == b"JUNK"));
}

#[test]
fn short_trailing_bytes_end_a_sequence() {
    let mut data = chunk(b"pad ", &[1, 2]);
    data.extend([0, 0, 0]);
    let v = read_chunks(&data, 0, 32, 0x10000).ok().expect("reads");
    assert_eq!(v.len(), 1);
}

#[test]
fn concrete_container_renders_settings_then_sound() {
    let horn = sound(&plain(4, "Horn", 2), "HORN.WAV", 0x4f);
    let data = container(10240, 4, &[0, 0, 0], &[horn]);
    let text = render(&data);
    let expected = "defineSettings Configuration {\n\tbufferSizeKB = 10;\n\tbuffersNum = 4;\n}\n\n\
                    defineSound Horn Weave {\n\tfileName = \"HORN.WAV\";\n}\n\n";
    assert_eq!(text, expected);
}

#[test]
fn blocks_come_out_by_identifier() {
    let streams = vec![
        object3d(&plain(11, "Five", 5), "five.x"),
        object3d(&plain(11, "One", 1), "one.x"),
        object3d(&plain(11, "Three", 3), "three.x"),
    ];
    let data = container(0x10000, 2, &[], &streams);
    let omni = Omni::parse(&data).ok().expect("decodes");
    let text = Text::from_omni(&omni).ok().expect("lowers");
    let ids: Vec<u32> = text.blocks.iter().map(|b| b.id).collect();
    assert_eq!(ids, vec![1, 3, 5]);
    let s = join(&text.collect());
    let one = s.find("defineObject One").unwrap();
    let three = s.find("defineObject Three").unwrap();
    let five = s.find("defineObject Five").unwrap();
    assert!(one < three && three < five);
}

#[test]
fn equal_identifiers_keep_the_last_block() {
    let streams = vec![
        object3d(&plain(11, "First", 7), "a.x"),
        object3d(&plain(11, "Second", 7), "b.x"),
    ];
    let data = container(0x10000, 2, &[], &streams);
    let omni = Omni::parse(&data).ok().expect("decodes");
    let text = Text::from_omni(&omni).ok().expect("lowers");
    assert_eq!(text.blocks.len(), 1);
    assert_eq!(text.blocks[0].name, "Second");
}

#[test]
fn unknown_top_level_tag_is_not_a_container() {
    let mut data = b"JUNK".to_vec();
    data.extend(u32le(4));
    data.extend_from_slice(b"OMNI");
    assert!(matches!(Omni::parse(&data), Err(OmniParseError::NoRiffChunk)));
    assert!(matches!(Omni::parse(&[]), Err(OmniParseError::NoRiffChunk)));
}

#[test]
fn other_contained_type_is_refused() {
    let data = chunk(b"RIFF", b"WAVE");
    assert!(matches!(Omni::parse(&data), Err(OmniParseError::NotOmni(id)) if &id.value == b"WAVE"));
}

#[test]
fn wrong_children_are_an_unknown_layout() {
    let mut body = b"OMNI".to_vec();
    body.extend(chunk(b"pad ", &[0, 0]));
    let data = chunk(b"RIFF", &body);
    assert!(matches!(Omni::parse(&data), Err(OmniParseError::UnknownLayout)));
}

#[test]
fn unknown_sub_format_is_refused() {
    let mut v = attrs_bytes(&plain(11, "X", 1));
    v.extend(file_bytes("x", b" XYZ", &[0; 8]));
    let data = container(0x10000, 2, &[], &[chunk(b"MxOb", &v)]);
    assert!(matches!(Omni::parse(&data), Err(OmniParseError::UnknownSubFormat(id)) if &id.value == b" XYZ"));
}

#[test]
fn unknown_object_kind_is_refused() {
    let v = attrs_bytes(&plain(5, "X", 1));
    let data = container(0x10000, 2, &[], &[chunk(b"MxOb", &v)]);
    assert!(matches!(Omni::parse(&data), Err(OmniParseError::UnknownObjectKind(5))));
}

#[test]
fn truncated_chunk_is_an_unexpected_end() {
    let full = sound(&plain(4, "Horn", 2), "HORN.WAV", 0x4f);
    let cut = full[..30].to_vec();
    let r = read_chunk(&cut, 0, 0x10000);
    assert!(matches!(r, Err(OmniParseError::UnexpectedEnd)));
}

#[test]
fn short_data_chunk_length_is_refused() {
    let mut data = b"MxCh".to_vec();
    data.extend(u32le(12));
    data.extend([0u8; 16]);
    let r = read_chunk(&data, 0, 0x10000);
    assert!(matches!(r, Err(OmniParseError::BadLength)));
}

#[test]
fn non_positive_buffer_size_is_refused() {
    let data = container(0, 2, &[], &[]);
    assert!(matches!(Omni::parse(&data), Err(OmniParseError::BadBufferSize(0))));
}

#[test]
fn list_count_headers_are_read() {
    let mut list = b"MxCh".to_vec();
    list.extend(u32le(3));
    let data = chunk(b"LIST", &list);
    match read_chunk(&data, 0, 0x10000).ok().expect("reads") {
        RiffChunk::List(l) => match l.list_type {
            LISTType::MxCh(m) => assert!(matches!(m.list_count, ListCount::Count(3))),
            _ => panic!("expected a counted list"),
        },
        _ => panic!("expected a list"),
    }
}

#[test]
fn offset_table_is_read() {
    let mut body = u32le(3);
    for v in [10u32, 0, 30] {
        body.extend(u32le(v));
    }
    match read_chunk(&chunk(b"MxOf", &body), 0, 0x10000).ok().expect("reads") {
        RiffChunk::MxOf(of) => assert_eq!(of.objects, vec![10, 0, 30]),
        _ => panic!("expected an offset table"),
    }
}

#[test]
fn sound_attributes_that_differ_from_defaults_are_written() {
    let mut o = plain(4, "Horn", 2);
    o.presenter = "MyPresenter";
    o.flags = 1;
    o.loops = 3;
    o.start = 100;
    o.location = [1.5, 0.0, -2.0];
    o.extra = "entity";
    let data = container(0x10000, 2, &[], &[sound(&o, "HORN.WAV", 60)]);
    let text = render(&data);
    assert!(text.contains("\thandlerClass = \"MyPresenter\";\n"));
    assert!(text.contains("\tlocation = (1.5, 0, -2);\n"));
    assert!(text.contains("\tvolume = 60;\n"));
    assert!(text.contains("\tstartTime = 100;\n"));
    assert!(text.contains("\tloopCount = 3;\n"));
    assert!(text.contains("\tloopingMethod = CACHE;\n"));
    assert!(text.contains("\tentityName = \"entity\";\n"));
}

#[test]
fn default_sound_presenter_is_not_written() {
    let mut o = plain(4, "Horn", 2);
    o.presenter = "Lego3DWavePresenter";
    let data = container(0x10000, 2, &[], &[sound(&o, "HORN.WAV", 0x4f)]);
    assert!(!render(&data).contains("handlerClass"));
}

#[test]
fn inconsistent_looping_flags_fail_lowering() {
    let mut o = plain(4, "Horn", 9);
    o.flags = 0;
    let data = container(0x10000, 2, &[], &[sound(&o, "HORN.WAV", 0x4f)]);
    let omni = Omni::parse(&data).ok().expect("decodes");
    assert!(matches!(Text::from_omni(&omni), Err(LowerError::LoopingFlags(9))));
}

#[test]
fn animations_have_no_textual_form() {
    let v = attrs_bytes(&plain(9, "Anim", 4));
    let data = container(0x10000, 2, &[], &[chunk(b"MxOb", &v)]);
    let omni = Omni::parse(&data).ok().expect("decodes");
    assert!(matches!(Text::from_omni(&omni), Err(LowerError::UnsupportedObject(4))));
}

#[test]
fn offset_tables_in_the_stream_list_fail_lowering() {
    let data = container(0x10000, 2, &[], &[chunk(b"MxOf", &u32le(0))]);
    let omni = Omni::parse(&data).ok().expect("decodes");
    assert!(matches!(Text::from_omni(&omni), Err(LowerError::UnsupportedChunk)));
}

fn presenter(o: &Obj, children: &[Vec<u8>]) -> Vec<u8> {
    let mut v = attrs_bytes(o);
    let mut list = b"MxSt".to_vec();
    for c in children {
        list.extend_from_slice(c);
    }
    v.extend(chunk(b"LIST", &list));
    chunk(b"MxOb", &v)
}

#[test]
fn presenter_declares_children_before_itself() {
    let kids = vec![object3d(&plain(11, "Wheel", 8), "wheel.x"), object3d(&plain(11, "Door", 9), "door.x")];
    let p = presenter(&plain(7, "Car", 10), &kids);
    let data = container(0x10000, 2, &[], &[p]);
    let omni = Omni::parse(&data).ok().expect("decodes");
    let text = Text::from_omni(&omni).ok().expect("lowers");
    let names: Vec<&str> = text.blocks.iter().map(|b| b.name.as_str()).collect();
    assert_eq!(names, vec!["Wheel", "Door", "Car"]);
    let car = &text.blocks[2];
    assert_eq!(car.block_type, BlockType::ParallelAction);
    assert!(car.is_weave);
    assert!(!text.blocks[0].is_weave);
    let decls: Vec<&str> = car
        .statements
        .iter()
        .map(|s| match s {
            Statement::Declaration(d) => d.as_str(),
            _ => "",
        })
        .collect();
    assert_eq!(decls, vec!["Wheel", "Door"]);
}

#[test]
fn presenter_with_padding_child_fails_lowering() {
    let p = presenter(&plain(7, "Car", 10), &[chunk(b"pad ", &[0, 0])]);
    let data = container(0x10000, 2, &[], &[p]);
    let omni = Omni::parse(&data).ok().expect("decodes");
    assert!(matches!(Text::from_omni(&omni), Err(LowerError::UnnamedChild)));
}

#[test]
fn object_names_are_decoded_lossily() {
    let data = container(0x10000, 2, &[], &[object3d(&plain(11, "Caf\u{e9}", 1), "a.x")]);
    let omni = Omni::parse(&data).ok().expect("decodes");
    match &omni.streams.subchunks[0] {
        RiffChunk::MxOb(ob) => {
            assert!(matches!(ob.obj, MxObType::Object(_)));
            assert_eq!(ob.obj.get_name(), "Caf\u{e9}");
        },
        _ => panic!("expected an object"),
    }
    let mut bad = attrs_bytes(&plain(11, "x", 1));
    let at = bad.iter().position(|b| *b == b'x').unwrap();
    bad[at] = 0xff;
    bad.extend(file_bytes("a.x", b" OBJ", &[0; 8]));
    let data = container(0x10000, 2, &[], &[chunk(b"MxOb", &bad)]);
    let omni = Omni::parse(&data).ok().expect("decodes");
    match &omni.streams.subchunks[0] {
        RiffChunk::MxOb(ob) => assert_eq!(ob.obj.get_name(), "\u{fffd}"),
        _ => panic!("expected an object"),
    }
}

#[test]
fn event_file_names_lose_their_suffix() {
    let mut v = attrs_bytes(&plain(8, "Ev", 3));
    v.extend(file_bytes("script.evt.evt", b" EVT", &[0; 8]));
    let data = container(0x10000, 2, &[], &[chunk(b"MxOb", &v)]);
    assert!(render(&data).contains("\tfileName = \"script\";\n"));
}

#[test]
fn still_images_write_palette_and_transparency() {
    let mut o = plain(10, "Pic", 3);
    o.flags = 2 | 8;
    o.duration = -1;
    let mut v = attrs_bytes(&o);
    v.extend(file_bytes("pic.stl", b" STL", &[0; 8]));
    let data = container(0x10000, 2, &[], &[chunk(b"MxOb", &v)]);
    let text = render(&data);
    assert!(text.contains("defineStill Pic Weave {\n\tfileName = \"pic.stl\";\n\tduration = INDEFINITE;\n\tpaletteManagement = NONE;\n\ttransparency = YES;\n}\n\n"));
}

#[test]
fn videos_write_palette_and_duration() {
    let mut o = plain(3, "Movie", 3);
    o.duration = 500;
    let mut v = attrs_bytes(&o);
    let mut rec = u32le(1);
    rec.extend(u32le(0));
    v.extend(file_bytes("m.flc", b" FLC", &rec));
    let data = container(0x10000, 2, &[], &[chunk(b"MxOb", &v)]);
    let text = render(&data);
    assert!(text.contains("defineAnim Movie Weave {\n\tfileName = \"m.flc\";\n\tduration = 500;\n}\n\n"));
}
