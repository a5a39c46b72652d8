//! The preset index: its statements run on a database in memory.

use rusqlite::{params_from_iter, Connection};

use zoog::library::{
    escape_like, indexed_files, must_scan, needs_rescan, rescan_rows, row_to_preset,
    search_statement, split_list, Filter, ImportPreset, Preserved, PresetRow, StoredRow, COUNT_ENGINE, DELETE_ENGINE, INSERT_ROW, SCHEMA,
    SELECT_BY_ID, SELECT_CATEGORIES, SELECT_FILES, SELECT_PRESERVED, UPDATE_FAVORITE,
    UPDATE_LAST_USED,
};

struct Library {
    conn: Connection,
}

fn stored(row: &rusqlite::Row) -> rusqlite::Result<StoredRow> {
    Ok(StoredRow {
        id: row.get(0)?,
        engine: row.get(1)?,
        name: row.get(2)?,
        path: row.get(3)?,
        load_key: row.get(4)?,
        category: row.get(5)?,
        features: row.get(6)?,
        creators: row.get(7)?,
        description: row.get(8)?,
        is_factory: row.get(9)?,
        favorite: row.get(10)?,
        last_used: row.get(11)?,
    })
}

impl Library {
    fn open_in_memory() -> Library {
        let conn = Connection::open_in_memory().unwrap();
        conn.execute_batch(SCHEMA).unwrap();
        Library { conn }
    }

    fn rescan(&mut self, engine: &str, presets: &[ImportPreset]) -> usize {
        let preserved: Vec<Preserved> = {
            let mut statement = self.conn.prepare(SELECT_PRESERVED).unwrap();
            let rows = statement
                .query_map([engine], |row| {
                    Ok(Preserved {
                        key: row.get(0)?,
                        favorite: row.get::<_, i64>(1)? != 0,
                        last_used: row.get(2)?,
                    })
                })
                .unwrap();
            rows.map(|r| r.unwrap()).collect()
        };
        self.conn.execute(DELETE_ENGINE, [engine]).unwrap();
        let rows = rescan_rows(engine, presets, &preserved);
        for row in &rows {
            self.conn
                .execute(
                    INSERT_ROW,
                    rusqlite::params_from_iter([
                        rusqlite::types::Value::from(row.engine.clone()),
                        rusqlite::types::Value::from(row.name.clone()),
                        rusqlite::types::Value::from(row.path.clone()),
                        rusqlite::types::Value::from(row.load_key.clone()),
                        rusqlite::types::Value::from(row.category.clone()),
                        rusqlite::types::Value::from(row.features.clone()),
                        rusqlite::types::Value::from(row.creators.clone()),
                        rusqlite::types::Value::from(row.description.clone()),
                        rusqlite::types::Value::from(row.is_factory as i64),
                        rusqlite::types::Value::from(row.favorite as i64),
                        rusqlite::types::Value::from(row.last_used),
                        rusqlite::types::Value::from(row.mtime),
                    ]),
                )
                .unwrap();
        }
        rows.len()
    }

    fn search(&self, filter: &Filter) -> Vec<PresetRow> {
        let statement = search_statement(filter);
        let mut prepared = self.conn.prepare(&statement.sql).unwrap();
        let rows = prepared.query_map(params_from_iter(statement.args.iter()), stored).unwrap();
        rows.map(|r| row_to_preset(r.unwrap())).collect()
    }

    fn categories(&self, engine: &str) -> Vec<String> {
        let mut prepared = self.conn.prepare(SELECT_CATEGORIES).unwrap();
        let rows = prepared.query_map([engine], |row| row.get(0)).unwrap();
        rows.map(|r| r.unwrap()).collect()
    }

    fn files(&self, engine: &str) -> Vec<(String, Option<i64>)> {
        let mut prepared = self.conn.prepare(SELECT_FILES).unwrap();
        let rows = prepared.query_map([engine], |row| Ok((row.get(0)?, row.get(1)?))).unwrap();
        rows.map(|r| r.unwrap()).collect()
    }

    fn set_favorite(&self, id: i64, favorite: bool) {
        self.conn.execute(UPDATE_FAVORITE, [id, favorite as i64]).unwrap();
    }

    fn touch_last_used(&self, id: i64, when: i64) {
        self.conn.execute(UPDATE_LAST_USED, [id, when]).unwrap();
    }

    fn get(&self, id: i64) -> Option<PresetRow> {
        let mut prepared = self.conn.prepare(SELECT_BY_ID).unwrap();
        let mut rows = prepared.query_map([id], stored).unwrap();
        rows.next().map(|r| row_to_preset(r.unwrap()))
    }

    fn count(&self, engine: &str) -> i64 {
        self.conn.query_row(COUNT_ENGINE, [engine], |row| row.get(0)).unwrap()
    }
}

fn everything() -> Filter {
    Filter::of_engine(None)
}

fn preset(name: &str, category: &str, path: &str) -> ImportPreset {
    ImportPreset {
        name: name.to_string(),
        category: Some(category.to_string()),
        path: Some(path.to_string()),
        load_key: None,
        features: vec![],
        creators: vec![],
        description: None,
        mtime: Some(100),
        is_factory: true,
    }
}

fn sample_library() -> Library {
    let mut lib = Library::open_in_memory();
    lib.rescan(
        "org.example",
        &[
            preset("Warm Pad", "Pads", "/p/Pads/Warm Pad.fxp"),
            preset("Big Bass", "Basses", "/p/Basses/Big Bass.fxp"),
            preset("Soft Bass", "Basses", "/p/Basses/Soft Bass.fxp"),
        ],
    );
    lib
}

#[test]
fn search_by_name_and_category() {
    let lib = sample_library();
    let all = lib.search(&everything());
    assert_eq!(all.len(), 3);

    let bass = lib.search(&Filter { query: Some("bass".to_string()), ..everything() });
    assert_eq!(bass.len(), 2);

    let pads = lib.search(&Filter { category: Some("Pads".to_string()), ..everything() });
    assert_eq!(pads.len(), 1);
    assert_eq!(pads[0].name, "Warm Pad");

    assert_eq!(lib.categories("org.example"), ["Basses", "Pads"]);
}

#[test]
fn like_wildcards_are_escaped() {
    let lib = sample_library();
    let none = lib.search(&Filter { query: Some("%".to_string()), ..everything() });
    assert!(none.is_empty());
    assert_eq!(escape_like("50%_\\"), "50\\%\\_\\\\");
}

#[test]
fn favorites_survive_rescan() {
    let mut lib = sample_library();
    let row = &lib.search(&Filter { query: Some("Warm".to_string()), ..everything() })[0];
    lib.set_favorite(row.id, true);
    lib.touch_last_used(row.id, 1_700_000_000);

    // Rescan with the same content plus one new preset.
    lib.rescan(
        "org.example",
        &[
            preset("Warm Pad", "Pads", "/p/Pads/Warm Pad.fxp"),
            preset("Big Bass", "Basses", "/p/Basses/Big Bass.fxp"),
            preset("New Lead", "Leads", "/p/Leads/New Lead.fxp"),
        ],
    );

    let favorites = lib.search(&Filter { favorites_only: true, ..everything() });
    assert_eq!(favorites.len(), 1);
    assert_eq!(favorites[0].name, "Warm Pad");
    assert_eq!(favorites[0].last_used, Some(1_700_000_000));
    // The removed preset is gone.
    assert_eq!(lib.count("org.example"), 3);
}

#[test]
fn needs_rescan_detects_change() {
    let lib = sample_library();
    let unchanged = vec![
        ("/p/Pads/Warm Pad.fxp".to_string(), 100),
        ("/p/Basses/Big Bass.fxp".to_string(), 100),
        ("/p/Basses/Soft Bass.fxp".to_string(), 100),
    ];
    let stored = lib.files("org.example");
    assert!(!needs_rescan(&stored, &unchanged));

    let mut touched = unchanged.clone();
    touched[0].1 = 200;
    assert!(needs_rescan(&stored, &touched));

    let mut removed = unchanged;
    removed.pop();
    assert!(needs_rescan(&stored, &removed));
}

#[test]
fn engines_are_isolated() {
    let mut lib = sample_library();
    lib.rescan("org.other", &[preset("Elsewhere", "X", "/q/x.fxp")]);
    assert_eq!(lib.count("org.example"), 3);
    assert_eq!(lib.count("org.other"), 1);
    lib.rescan("org.other", &[]);
    assert_eq!(lib.count("org.example"), 3);
}

#[test]
fn a_row_reads_back_what_was_imported() {
    let mut lib = Library::open_in_memory();
    let mut import = preset("Warm Pad", "Pads", "/p/Warm Pad.fxp");
    import.features = vec!["pad".to_string(), "warm".to_string()];
    import.creators = vec!["Ann".to_string()];
    import.description = Some("soft".to_string());
    import.load_key = Some("k".to_string());
    assert_eq!(lib.rescan("org.example", &[import]), 1);
    let id = lib.search(&everything())[0].id;
    let row = lib.get(id).unwrap();
    assert_eq!(row.features, ["pad", "warm"]);
    assert_eq!(row.creators, ["Ann"]);
    assert_eq!(row.description.as_deref(), Some("soft"));
    assert_eq!(row.load_key.as_deref(), Some("k"));
    assert!(row.is_factory && !row.favorite);
    assert_eq!(row.last_used, None);
    assert!(lib.get(id + 1).is_none());
}

#[test]
fn lists_survive_a_column() {
    assert!(split_list("").is_empty());
    assert_eq!(split_list("a\u{1}b"), ["a", "b"]);
}

#[test]
fn search_arguments_follow_the_statement() {
    let statement = search_statement(&Filter {
        engine: Some("org.example".to_string()),
        query: Some("a_b".to_string()),
        category: Some("Pads".to_string()),
        favorites_only: true,
    });
    assert_eq!(statement.args, ["org.example", "%a\\_b%", "Pads"]);
    assert_eq!(statement.sql.matches('?').count(), 3);
    assert!(statement.sql.contains("favorite != 0"));
}

#[test]
fn empty_fields_match_everything() {
    let lib = sample_library();
    let empty = || Some(String::new());
    assert_eq!(lib.search(&Filter { category: empty(), ..Default::default() }).len(), 3);
    assert_eq!(lib.search(&Filter { engine: empty(), ..Default::default() }).len(), 3);
    assert_eq!(lib.search(&Filter { query: empty(), ..Default::default() }).len(), 3);
    let statement = search_statement(&Filter { category: empty(), ..Default::default() });
    assert_eq!(statement.sql, search_statement(&Filter::default()).sql);
    assert!(statement.args.is_empty());
}

#[test]
fn an_empty_or_stale_index_is_scanned() {
    let mut presets = vec![
        preset("Warm Pad", "Pads", "/p/Pads/Warm Pad.fxp"),
        ImportPreset { name: "Inside".to_string(), ..Default::default() },
        preset("Big Bass", "Basses", "/p/Basses/Big Bass.fxp"),
    ];
    presets[2].mtime = None;
    let files = indexed_files(&presets);
    assert_eq!(
        files,
        [
            ("/p/Pads/Warm Pad.fxp".to_string(), 100),
            ("/p/Basses/Big Bass.fxp".to_string(), -1)
        ]
    );
    let mut lib = Library::open_in_memory();
    assert!(must_scan(lib.count("e"), &lib.files("e"), &files));
    lib.rescan("e", &presets);
    assert!(!must_scan(lib.count("e"), &lib.files("e"), &files));
    presets[0].mtime = Some(101);
    assert!(must_scan(lib.count("e"), &lib.files("e"), &indexed_files(&presets)));
}
