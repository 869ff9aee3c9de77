use ntoskrnl_offsets::symbols::{expected_symbols_table, kind_and_name, EXPECTED_SYMBOL_COUNT};
use ntoskrnl_offsets::text::chars_of;

fn split(decl: &str) -> (String, String) {
    kind_and_name(&chars_of(decl))
}

#[test]
fn the_default_list_has_63_symbols() {
    let table = expected_symbols_table();
    assert_eq!(table.len(), 63);
    assert_eq!(EXPECTED_SYMBOL_COUNT, 63);
    let first: String = table[0].0.iter().collect();
    assert_eq!(first, "_LIST_ENTRY ActiveProcessLinks");
    let cond: String = table[2].1.iter().collect();
    assert_eq!(cond, "struct _EPROCESS");
    let last: String = table[62].0.iter().collect();
    assert_eq!(last, "uint64_t DueTime");
}

#[test]
fn declarations_split_into_type_and_name() {
    assert_eq!(split("_LIST_ENTRY ActiveProcessLinks"), ("_LIST_ENTRY".to_string(), "ActiveProcessLinks".to_string()));
    assert_eq!(split("void * UniqueProcessId"), ("void *".to_string(), "UniqueProcessId".to_string()));
    assert_eq!(split("char ImageFileName[15]"), ("char".to_string(), "ImageFileName[15]".to_string()));
    assert_eq!(split("EtwThreatIntProvRegHandle"), ("".to_string(), "EtwThreatIntProvRegHandle".to_string()));
}

#[test]
fn split_matches_split_and_join() {
    for entry in expected_symbols_table() {
        let decl: String = entry.0.iter().collect();
        let parts: Vec<&str> = decl.split(" ").collect();
        let kind = parts[0..parts.len() - 1].join(" ");
        let name = parts[parts.len() - 1].to_string();
        assert_eq!(split(&decl), (kind.clone(), name.clone()));
        if kind.is_empty() {
            assert_eq!(name, decl);
        } else {
            assert_eq!(format!("{} {}", kind, name), decl);
        }
    }
}
