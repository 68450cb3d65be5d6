use axbind::config::{ConfigTable, ConfigValue, TableHandle, TableResultOptional};
use axbind::context::Context;
use axbind::errors::TableGetErr;
use axbind::filebase::{AxbindFilebase, Filebase};
use axbind::maps::{resolve_key, MapLookup};
use axbind::overlay::OptWrite;
use axbind::schema::{MapFile, MetaOpts};

fn s(x: &str) -> String {
    x.to_owned()
}

fn map_file(inclusions: &[&str], values: &[(&str, &str)]) -> MapFile {
    MapFile {
        inclusions: inclusions.iter().map(|i| s(i)).collect(),
        values: values.iter().map(|(k, v)| (s(k), s(v))).collect(),
        source_path: s("test"),
    }
}

#[test]
fn overlay_option_merge() {
    let a: Option<u32> = Some(1);
    assert_eq!(a.overriden_by(Some(2)), Some(2));
    assert_eq!(a.overriden_by(None), Some(1));
    assert_eq!(None.overriden_by(Some(2)), Some(2));
    let mut b: Option<u32> = Some(3);
    b.optwrite(None);
    assert_eq!(b, Some(3));
    b.optwrite(Some(4));
    assert_eq!(b, Some(4));
}

#[test]
fn overlay_merge_associative() {
    // folding three scopes one at a time equals merging a pre-merged override
    let a = MetaOpts { escape: Some(s("@")), proxy: None };
    let b = MetaOpts { escape: None, proxy: Some(s("p")) };
    let c = MetaOpts { escape: Some(s("#")), proxy: None };
    let left = a
        .duplicate()
        .overriden_by(b.duplicate())
        .overriden_by(c.duplicate());
    let right = a.duplicate().overriden_by(b.duplicate().overriden_by(c.duplicate()));
    assert_eq!(left.escape, right.escape);
    assert_eq!(left.proxy, right.proxy);
    assert_eq!(left.escape, Some(s("#")));
    assert_eq!(left.proxy, Some(s("p")));
}

#[test]
fn overlay_merge_identity() {
    let a = MetaOpts { escape: Some(s("@")), proxy: Some(s("p")) };
    let absent = MetaOpts::default();
    let kept = a.duplicate().overriden_by(absent);
    assert_eq!(kept.escape, Some(s("@")));
    assert_eq!(kept.proxy, Some(s("p")));
    let taken = MetaOpts::default().overriden_by(a.duplicate());
    assert_eq!(taken.escape, Some(s("@")));
    assert_eq!(taken.proxy, Some(s("p")));
}

#[test]
fn cache_single_parse() {
    let mut fb: Filebase<MapFile> = Filebase::new(s("defs/maps"));
    // a miss reports exactly the path to load, once
    let miss = fb.query("colors").unwrap_err();
    assert_eq!(miss.identifier, s("colors"));
    assert_eq!(miss.path, s("defs/maps/colors.toml"));
    fb.insert(s("colors"), map_file(&[], &[("red", "#f00")]));
    // every later query observes the one stored parse
    let first = fb.query("colors").unwrap();
    assert_eq!(first.values, vec![(s("red"), s("#f00"))]);
    let second = fb.query("colors").unwrap();
    assert_eq!(second.values, vec![(s("red"), s("#f00"))]);
    assert_eq!(second.inclusions, Vec::<String>::new());
}

#[test]
fn axbind_filebase_roots() {
    let fb = AxbindFilebase::new("cfg");
    let fmiss = fb.functions.query("f").unwrap_err();
    assert_eq!(fmiss.path, s("cfg/functions/f.toml"));
    let mmiss = fb.maps.query("m").unwrap_err();
    assert_eq!(mmiss.path, s("cfg/maps/m.toml"));
}

#[test]
fn map_inclusion_resolution() {
    // local entries win over included ones; missing keys fall through
    let mut maps: Filebase<MapFile> = Filebase::new(s("maps"));
    maps.insert(s("a"), map_file(&["b"], &[("x", "1")]));
    maps.insert(s("b"), map_file(&[], &[("x", "2"), ("y", "3")]));
    match resolve_key(&maps, "a", "x") {
        MapLookup::Found(v) => assert_eq!(v, s("1")),
        other => panic!("{:?}", name_of(&other)),
    }
    match resolve_key(&maps, "a", "y") {
        MapLookup::Found(v) => assert_eq!(v, s("3")),
        other => panic!("{:?}", name_of(&other)),
    }
    assert!(matches!(resolve_key(&maps, "a", "z"), MapLookup::Missing));
}

#[test]
fn map_inclusion_later_wins() {
    // later-declared inclusions override earlier ones on conflict
    let mut maps: Filebase<MapFile> = Filebase::new(s("maps"));
    maps.insert(s("top"), map_file(&["first", "second"], &[]));
    maps.insert(s("first"), map_file(&[], &[("k", "from-first")]));
    maps.insert(s("second"), map_file(&[], &[("k", "from-second")]));
    match resolve_key(&maps, "top", "k") {
        MapLookup::Found(v) => assert_eq!(v, s("from-second")),
        other => panic!("{:?}", name_of(&other)),
    }
}

#[test]
fn map_needs_load_reported() {
    let mut maps: Filebase<MapFile> = Filebase::new(s("maps"));
    maps.insert(s("a"), map_file(&["missing"], &[]));
    match resolve_key(&maps, "a", "x") {
        MapLookup::NeedsMap(id) => assert_eq!(id, s("missing")),
        other => panic!("{:?}", name_of(&other)),
    }
}

#[test]
fn cyclic_inclusion_detected() {
    // a cycle is reported, never an infinite walk
    let mut maps: Filebase<MapFile> = Filebase::new(s("maps"));
    maps.insert(s("a"), map_file(&["b"], &[("only", "here")]));
    maps.insert(s("b"), map_file(&["a"], &[]));
    match resolve_key(&maps, "a", "x") {
        MapLookup::CycleAt(id) => assert_eq!(id, s("a")),
        other => panic!("{:?}", name_of(&other)),
    }
    // a key served locally never reaches the cycle
    match resolve_key(&maps, "a", "only") {
        MapLookup::Found(v) => assert_eq!(v, s("here")),
        other => panic!("{:?}", name_of(&other)),
    }
}

fn name_of(l: &MapLookup) -> &'static str {
    match l {
        MapLookup::Found(_) => "Found",
        MapLookup::Missing => "Missing",
        MapLookup::NeedsMap(_) => "NeedsMap",
        MapLookup::CycleAt(_) => "CycleAt",
    }
}

#[test]
fn context_branches() {
    let root = Context::root(s("file.toml"));
    let a = root.child(s("groups"));
    let b = root.child(s("meta"));
    assert_eq!(a.render(), s("file.toml -> groups"));
    assert_eq!(b.render(), s("file.toml -> meta"));
    assert_eq!(root.render(), s("file.toml"));
    assert_eq!(a.child(s("captures")).render(), s("file.toml -> groups -> captures"));
}

fn sample_table() -> ConfigTable {
    ConfigTable {
        entries: vec![
            (s("name"), ConfigValue::Text(s("demo"))),
            (
                s("values"),
                ConfigValue::Table(ConfigTable {
                    entries: vec![(s("a"), ConfigValue::Text(s("1")))],
                }),
            ),
            (s("list"), ConfigValue::List(vec![ConfigValue::Text(s("x"))])),
        ],
    }
}

#[test]
fn extraction_typed_accessors() {
    let t = sample_table();
    let h = TableHandle::new_root(&t, s("root"));
    assert_eq!(h.get("name").expect_string().unwrap(), &s("demo"));
    let missing = h.get("absent").expect_string().unwrap_err();
    assert!(matches!(missing.error, TableGetErr::NoKey));
    assert_eq!(missing.render(), s("expected key at 'root -> absent', no such key exists"));
    let wrong = h.get("name").expect_table().unwrap_err();
    assert!(matches!(wrong.error, TableGetErr::WrongType(_)));
    assert_eq!(wrong.render(), s("value for key 'root -> name' is of wrong type (expected table)"));
    let arr = h.get("list").expect_array().unwrap();
    assert_eq!(arr.len(), 1);
    // absence is representable instead of an error
    assert_eq!(h.get("absent").expect_string().optional().unwrap(), None);
    let inner = h.get("values").expect_table().unwrap();
    assert_eq!(inner.get("a").expect_string().unwrap(), &s("1"));
}

#[test]
fn extraction_mapfile() {
    let t = ConfigTable {
        entries: vec![
            (s("inclusions"), ConfigValue::List(vec![ConfigValue::Text(s("base"))])),
            (
                s("values"),
                ConfigValue::Table(ConfigTable {
                    entries: vec![
                        (s("x"), ConfigValue::Text(s("1"))),
                        (s("y"), ConfigValue::Text(s("2"))),
                    ],
                }),
            ),
        ],
    };
    let h = TableHandle::new_root(&t, s("maps/a.toml"));
    let m = MapFile::from_table(&h, s("maps/a.toml")).unwrap();
    assert_eq!(m.inclusions, vec![s("base")]);
    assert_eq!(m.values, vec![(s("x"), s("1")), (s("y"), s("2"))]);
    assert_eq!(m.source_path, s("maps/a.toml"));
    // a map without inclusions has none; a map without values is a shape error
    let t2 = ConfigTable {
        entries: vec![(s("values"), ConfigValue::Table(ConfigTable { entries: vec![] }))],
    };
    let h2 = TableHandle::new_root(&t2, s("maps/b.toml"));
    let m2 = MapFile::from_table(&h2, s("maps/b.toml")).unwrap();
    assert_eq!(m2.inclusions, Vec::<String>::new());
    let t3 = ConfigTable { entries: vec![] };
    let h3 = TableHandle::new_root(&t3, s("maps/c.toml"));
    assert!(MapFile::from_table(&h3, s("maps/c.toml")).is_err());
}

#[test]
fn traverse_nested_tables() {
    let t = sample_table();
    let h = TableHandle::new_root(&t, s("root"));
    let inner = h.traverse(&vec![s("values")]).unwrap();
    assert_eq!(inner.get("a").expect_string().unwrap(), &s("1"));
    assert_eq!(inner.context.render(), s("root -> values"));
    assert_eq!(h.traverse(&vec![]).unwrap().entry_count(), 3);
    let not_a_table = h.traverse(&vec![s("name")]).unwrap_err();
    assert!(matches!(not_a_table.error, TableGetErr::WrongType(_)));
    assert_eq!(not_a_table.context.render(), s("root -> name"));
    let absent = h.traverse(&vec![s("gone")]).unwrap_err();
    assert!(matches!(absent.error, TableGetErr::NoKey));
    assert_eq!(absent.context.render(), s("root -> gone"));
}
