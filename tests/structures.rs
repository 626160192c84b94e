use omnitext::chunk::RiffChunkHeader;
use omnitext::lower::LowerError;
use omnitext::object::{
    ExtraString, MediaFile, MxObAttrs, MxObFlags, MxObType, MxObjObject, MxObject, MxObjectFileType, MxWorld, Vec3,
};
use omnitext::chunk::{LISTType, List, ChunkId};
use omnitext::order::SortingId;
use omnitext::text::{BlockType, Statement};
use omnitext::tree::Tree;
use std::cmp::Ordering;

fn attrs(id: u32) -> MxObAttrs {
    MxObAttrs {
        presenter: vec![],
        unk0: 0,
        name: b"Thing".to_vec(),
        id,
        flags: MxObFlags { bits: 2 },
        start_time: 0,
        duration: 0,
        loops: 1,
        location: Vec3::new(0, 0x8000_0000_0000_0000, 0),
        direction: Vec3::new(0, 0, 1.0f64.to_bits()),
        up: Vec3::new(0, 1.0f64.to_bits(), 0),
        extra: ExtraString { text: None },
    }
}

#[test]
fn defaults_are_not_written() {
    let o = MxObject {
        attrs: attrs(4),
        file: MediaFile { filename: b"thing.x".to_vec(), unk2: 0, unk3: 0, unk4: 0 },
        filetype: MxObjectFileType::Obj(MxObjObject { unk5: 0, unk6: 0 }),
    };
    let (b, before, after) = o.to_block(true);
    let b = b.unwrap();
    assert!(before.is_empty() && after.is_empty());
    assert_eq!(b.block_type, BlockType::DefineObject);
    assert_eq!(b.statements.len(), 1);
    assert!(matches!(&b.statements[0], Statement::Assignment(n, _) if n == "fileName"));
}

#[test]
fn non_default_vectors_are_written() {
    let mut a = attrs(4);
    a.up = Vec3::new(0, 0, 1.0f64.to_bits());
    a.loops = 2;
    let o = MxObject {
        attrs: a,
        file: MediaFile { filename: b"thing.x".to_vec(), unk2: 0, unk3: 0, unk4: 0 },
        filetype: MxObjectFileType::Obj(MxObjObject { unk5: 0, unk6: 0 }),
    };
    let (b, _, _) = o.to_block(false);
    let b = b.unwrap();
    assert!(!b.is_weave);
    let names: Vec<&str> = b.statements.iter().map(|s| match s {
        Statement::Assignment(n, _) => n.as_str(),
        Statement::Declaration(n) => n.as_str(),
    }).collect();
    assert_eq!(names, vec!["fileName", "up"]);
}

#[test]
fn zero_tests_ignore_the_sign() {
    assert!(Vec3::new(0x8000_0000_0000_0000, 0, 0).is_origin());
    assert!(!Vec3::new(1, 0, 0).is_origin());
    assert!(Vec3::new(0, 0, 1.0f64.to_bits()).is_forward());
    assert!(Vec3::new(0, 1.0f64.to_bits(), 0).is_up());
}

#[test]
fn worlds_have_no_textual_form() {
    let w = MxObType::World(MxWorld {
        attrs: attrs(12),
        list: List { header: RiffChunkHeader::from_raw(4), list_type: LISTType::Other(ChunkId { value: *b"MxSt" }), subchunks: vec![] },
    });
    assert!(matches!(w.to_block(true), Err(LowerError::UnsupportedObject(12))));
}

#[test]
fn sorting_id_reads_the_offset_table() {
    let offsets = [0u32, 100, 200];
    let s = SortingId::from_id_index(BlockType::DefineSound, 2, &offsets, 7, 1, 3);
    assert_eq!(s.offset, 200);
    assert_eq!(s.parent_offset, 100);
    assert_eq!((s.index, s.parent_index), (7, 3));
    let t = SortingId::from_id_index(BlockType::DefineSound, 9, &offsets, 0, 9, 0);
    assert_eq!(t.offset, 0);
    assert_eq!(s.cmp(&t), Ordering::Less);
    assert_eq!(t.cmp(&s), Ordering::Greater);
    assert_eq!(s.cmp(&s), Ordering::Equal);
}

#[test]
fn adjacency_order_puts_children_before_parents() {
    let offsets = [0u32, 0, 0, 0, 0, 0];
    let child = SortingId::from_id_index(BlockType::DefineSound, 5, &offsets, 0, 2, 0);
    let parent = SortingId::from_id_index(BlockType::ParallelAction, 2, &offsets, 0, 2, 0);
    assert_eq!(child.cmp_by_adjacency(&parent), Ordering::Less);
    assert_eq!(parent.cmp_by_adjacency(&child), Ordering::Greater);
    assert_eq!(child.cmp(&parent), Ordering::Greater);
}

#[test]
fn tree_inserts_in_order() {
    let mut t = Tree::new(5);
    t.insert_before(1);
    t.insert_after(9);
    t.insert_just_before(4);
    t.insert_just_after(6);
    t.insert_before(0);
    assert_eq!(t.collect(), vec![0, 1, 4, 5, 6, 9]);
}

#[test]
fn tree_returned_node_grows_in_place() {
    let mut t = Tree::new(10);
    {
        let n = t.insert_after(20);
        n.insert_just_before(15);
        n.insert_just_after(25);
    }
    let mut out = vec![1];
    t.traverse(&mut out);
    assert_eq!(out, vec![1, 10, 15, 20, 25]);
    let mut b = Tree::add(3);
    assert_eq!(b.insert_before(4).collect(), vec![4]);
    assert_eq!(b.collect(), vec![4, 3]);
}
