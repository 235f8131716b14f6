use contrack::error::Error;
use contrack::utils::{
    get_config_dir, get_config_path, get_contrack_dir, get_database_path, join_path,
    locations_command, Ancestor,
};

const RULE: &str =
    "================================================================================\n";

fn ancestors(marked: &[bool]) -> Vec<Ancestor> {
    let paths = ["/home/me/project/src", "/home/me/project", "/home/me", "/home", "/"];
    marked
        .iter()
        .enumerate()
        .map(|(i, m)| Ancestor { directory: paths[i].to_string(), has_marker: *m })
        .collect()
}

#[test]
fn test_locations_command() {
    let result = locations_command(&vec![], &Some("/data/contrack".to_string()), true, true);
    assert!(result.is_ok());
}

#[test]
fn test_database_path() {
    let path = get_database_path(&vec![], &Some("/data/contrack".to_string())).unwrap();
    let path = std::path::Path::new(&path);
    assert!(path.parent().unwrap() == std::path::Path::new("/data/contrack"));
    assert!(path.file_name().unwrap() == "contributions.db");
}

#[test]
fn test_get_contrack_dir_not_found() {
    let result = get_contrack_dir(&ancestors(&[false, false, false, false, false]));
    assert_eq!(result, None);
    assert_eq!(get_contrack_dir(&vec![]), None);
}

#[test]
fn test_get_contrack_dir_found() {
    let result = get_contrack_dir(&ancestors(&[false, true, false, true, false]));
    assert!(result.is_some());
    assert_eq!(result.unwrap(), "/home/me/project/.contrack");
}

#[test]
fn test_get_database_path_with_contrack_dir() {
    let db_path =
        get_database_path(&ancestors(&[true]), &Some("/data/contrack".to_string())).unwrap();
    assert_eq!(db_path, "/home/me/project/src/.contrack/contributions.db");
    let db_path = std::path::Path::new(&db_path);
    assert_eq!(db_path.parent().unwrap().file_name().unwrap(), ".contrack");
    assert_eq!(db_path.file_name().unwrap(), "contributions.db");
}

#[test]
fn test_get_database_path_fallback() {
    let db_path =
        get_database_path(&ancestors(&[false, false]), &Some("/data/contrack".to_string())).unwrap();
    assert!(!db_path.starts_with("/home/me"));
    assert!(db_path.ends_with("contributions.db"));
    assert_eq!(db_path, "/data/contrack/contributions.db");
}

#[test]
fn paths_without_a_home_fail() {
    assert_eq!(get_database_path(&ancestors(&[false]), &None), Err(Error::NoDataDirectory));
    assert_eq!(get_config_path(&vec![], &None), Err(Error::NoDataDirectory));
    assert_eq!(get_config_dir(&None), Err(Error::NoDataDirectory));
    assert_eq!(get_config_dir(&Some("/cfg".to_string())), Ok("/cfg".to_string()));
    assert_eq!(
        get_config_path(&vec![], &Some("/cfg".to_string())),
        Ok("/cfg/config.toml".to_string())
    );
    assert_eq!(
        get_config_path(&ancestors(&[false, false, true]), &None),
        Ok("/home/me/.contrack/config.toml".to_string())
    );
    assert_eq!(locations_command(&vec![], &None, true, true), Err(Error::NoDataDirectory));
}

#[test]
fn paths_are_joined_with_one_separator() {
    assert_eq!(join_path("/a", "b"), "/a/b");
    assert_eq!(join_path("/a/", "b"), "/a/b");
    assert_eq!(join_path("/", ".contrack"), "/.contrack");
    assert_eq!(join_path("", "b"), "b");
    assert_eq!(
        std::path::Path::new("/a").join("b").to_str().unwrap(),
        join_path("/a", "b")
    );
}

#[test]
fn locations_name_the_store_in_use() {
    let text =
        locations_command(&ancestors(&[false, true]), &Some("/data/contrack".to_string()), true, false)
            .unwrap();
    assert_eq!(
        text,
        format!(
            "\nContrack Database Locations\n{}\n* Current Database (Active)\n  Type: Project-Local\n  Directory: /home/me/project/.contrack\n  Database: /home/me/project/.contrack/contributions.db\n  Exists: Yes\n\n* Global Location\n  Type: Global\n  Directory: /data/contrack\n  Database: /data/contrack/contributions.db\n  Exists: No\n\n",
            RULE
        )
    );
    let text = locations_command(&vec![], &Some("/data/contrack".to_string()), false, false).unwrap();
    assert_eq!(
        text,
        format!(
            "\nContrack Database Locations\n{}\n* Current Database (Active)\n  Type: Global\n  Directory: /data/contrack\n  Database: /data/contrack/contributions.db\n  Exists: No\n\n",
            RULE
        )
    );
}
