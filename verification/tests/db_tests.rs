use aeromessage::db::{Database, DbError};

#[test]
fn test_default_path() {
    if let Some(path) = Database::default_path() {
        assert!(path.contains("Library/Messages/chat.db"));
    }
}

#[test]
fn test_db_error_display() {
    let err = DbError::NotFound("/test/path".to_string());
    assert!(err.message().contains("/test/path"));

    let err = DbError::PermissionDenied("/secret".to_string());
    assert!(err.message().contains("Permission denied"));
}

#[test]
fn test_open_missing_store_is_not_found() {
    let path = "/nonexistent/path/for/tests/chat.db";
    match Database::open(path) {
        Err(DbError::NotFound(p)) => assert_eq!(p, path),
        _ => panic!("expected a missing store to report NotFound"),
    }
}

#[test]
fn test_open_real_database() {
    let path = match Database::default_path() {
        Some(path) => path,
        None => {
            println!("Skipping: no home directory");
            return;
        }
    };

    match Database::open(&path) {
        Ok(_db) => {
            println!("Successfully opened chat.db");
        }
        Err(DbError::NotFound(p)) => {
            println!("Skipping: chat.db not found at {:?}", p);
        }
        Err(e) => {
            println!("Could not open database: {}", e.message());
        }
    }
}

#[test]
fn test_fetch_unread_conversations() {
    let path = match Database::default_path() {
        Some(path) => path,
        None => {
            println!("Skipping: no home directory");
            return;
        }
    };

    let db = match Database::open(&path) {
        Ok(db) => db,
        Err(e) => {
            println!("Skipping: {}", e.message());
            return;
        }
    };

    match db.unread_conversations() {
        Ok(convs) => {
            println!("Found {} unread conversations", convs.len());
            for conv in convs.iter().take(3) {
                println!(
                    "  - {} ({} unread, {} messages)",
                    conv.name(),
                    conv.unread_count,
                    conv.messages.len()
                );
            }
        }
        Err(e) => {
            println!("Error fetching conversations: {}", e.message());
        }
    }
}
