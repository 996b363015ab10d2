use analog::db::{
    dedupe_rows, init_sqlite_db, store_events_in_sqlite, SqlValue, Statement, Step, StoreError,
    Transaction,
};
use analog::models::SavedLogEvent;
use sqlx::sqlite::{SqlitePool, SqlitePoolOptions};
use sqlx::Row;

fn block_on<F: std::future::Future>(future: F) -> F::Output {
    tokio::runtime::Builder::new_current_thread().enable_all().build().unwrap().block_on(future)
}

async fn open_store() -> SqlitePool {
    let pool = SqlitePoolOptions::new().max_connections(1).connect("sqlite::memory:").await.unwrap();
    for statement in init_sqlite_db() {
        sqlx::query(statement.sql).execute(&pool).await.unwrap();
    }
    pool
}

fn store_error(error: sqlx::Error) -> StoreError {
    StoreError { message: error.to_string() }
}

async fn execute(
    open: &mut sqlx::Transaction<'static, sqlx::Sqlite>,
    statement: &Statement,
) -> Result<(), sqlx::Error> {
    let mut query = sqlx::query(statement.sql);
    for value in &statement.params {
        query = match value {
            SqlValue::Text(text) => query.bind(text.clone()),
            SqlValue::Integer(number) => query.bind(*number),
        };
    }
    query.execute(open).await.map(|_| ())
}

/// Makes the calls that `transaction` asks for, and returns what it came to.
async fn run(pool: &SqlitePool, mut transaction: Transaction) -> Result<(), StoreError> {
    let mut open: Option<sqlx::Transaction<'static, sqlx::Sqlite>> = None;
    loop {
        let reply = match transaction.next_step() {
            Step::Begin => match pool.begin().await {
                Ok(begun) => {
                    open = Some(begun);
                    Ok(())
                }
                Err(error) => Err(error),
            },
            Step::Execute(statement) => execute(open.as_mut().unwrap(), statement).await,
            Step::Commit => open.take().unwrap().commit().await,
            Step::Nothing => break,
        };
        transaction = match reply {
            Ok(()) => transaction.on_success(),
            Err(error) => transaction.on_failure(store_error(error)),
        };
    }
    drop(open);
    transaction.outcome().unwrap()
}

async fn rows(pool: &SqlitePool) -> Vec<(i64, String, String, i64, String)> {
    sqlx::query("SELECT id, log_group, event_id, timestamp, message FROM cloudwatch_logs ORDER BY id")
        .fetch_all(pool)
        .await
        .unwrap()
        .iter()
        .map(|row| (row.get(0), row.get(1), row.get(2), row.get(3), row.get(4)))
        .collect()
}

fn event(event_id: Option<&str>, timestamp: Option<i64>, message: Option<&str>) -> SavedLogEvent {
    SavedLogEvent {
        log_stream_name: Some("stream".to_string()),
        timestamp,
        message: message.map(|text| text.to_string()),
        ingestion_time: Some(1),
        event_id: event_id.map(|id| id.to_string()),
    }
}

#[test]
fn a_stored_event_is_read_back_as_it_was_stored() {
    block_on(async {
        let pool = open_store().await;
        let events = vec![event(Some("e1"), Some(100), Some("m"))];
        run(&pool, store_events_in_sqlite("G", &events)).await.unwrap();
        assert_eq!(
            rows(&pool).await,
            vec![(1, "G".to_string(), "e1".to_string(), 100, "m".to_string())]
        );
    });
}

#[test]
fn deduplication_keeps_the_first_of_equal_rows_and_then_changes_nothing() {
    block_on(async {
        let pool = open_store().await;
        let events = vec![event(Some("e1"), Some(100), Some("m"))];
        run(&pool, store_events_in_sqlite("G", &events)).await.unwrap();
        run(&pool, store_events_in_sqlite("G", &events)).await.unwrap();
        assert_eq!(rows(&pool).await.len(), 2);
        run(&pool, dedupe_rows()).await.unwrap();
        let once = rows(&pool).await;
        assert_eq!(once, vec![(1, "G".to_string(), "e1".to_string(), 100, "m".to_string())]);
        run(&pool, dedupe_rows()).await.unwrap();
        assert_eq!(rows(&pool).await, once);
    });
}

#[test]
fn deduplication_tells_rows_apart_by_each_of_their_four_values() {
    block_on(async {
        let pool = open_store().await;
        let events = vec![
            event(Some("e1"), Some(100), Some("m")),
            event(Some("e2"), Some(100), Some("m")),
            event(Some("e1"), Some(101), Some("m")),
            event(Some("e1"), Some(100), Some("n")),
            event(Some("e1"), Some(100), Some("m")),
        ];
        run(&pool, store_events_in_sqlite("G", &events)).await.unwrap();
        run(&pool, store_events_in_sqlite("H", &events[..1].to_vec())).await.unwrap();
        run(&pool, dedupe_rows()).await.unwrap();
        let ids: Vec<i64> = rows(&pool).await.iter().map(|row| row.0).collect();
        assert_eq!(ids, vec![1, 2, 3, 4, 6]);
    });
}

#[test]
fn absent_fields_are_stored_as_empty_text_and_zero() {
    block_on(async {
        let pool = open_store().await;
        run(&pool, store_events_in_sqlite("G", &vec![event(None, None, None)])).await.unwrap();
        assert_eq!(rows(&pool).await, vec![(1, "G".to_string(), String::new(), 0, String::new())]);
    });
}

#[test]
fn setting_the_schema_up_twice_changes_nothing() {
    block_on(async {
        let pool = open_store().await;
        run(&pool, store_events_in_sqlite("G", &vec![event(Some("e"), Some(1), Some("m"))]))
            .await
            .unwrap();
        for statement in init_sqlite_db() {
            sqlx::query(statement.sql).execute(&pool).await.unwrap();
        }
        assert_eq!(rows(&pool).await.len(), 1);
        let counted: Vec<(String, String, i64)> =
            sqlx::query("SELECT log_group, message, message_count FROM cloudwatch_unique_logs_view")
                .fetch_all(&pool)
                .await
                .unwrap()
                .iter()
                .map(|row| (row.get(0), row.get(1), row.get(2)))
                .collect();
        assert_eq!(counted, vec![("G".to_string(), "m".to_string(), 1)]);
        let indexes: Vec<String> =
            sqlx::query("SELECT name FROM sqlite_master WHERE type = 'index' ORDER BY name")
                .fetch_all(&pool)
                .await
                .unwrap()
                .iter()
                .map(|row| row.get(0))
                .collect();
        assert_eq!(indexes, vec!["idx_log_group".to_string(), "idx_timestamp".to_string()]);
    });
}

#[test]
fn a_failed_insertion_leaves_nothing_of_the_batch_in_the_store() {
    block_on(async {
        let pool = open_store().await;
        sqlx::query(
            "CREATE TRIGGER refuse BEFORE INSERT ON cloudwatch_logs WHEN NEW.event_id = 'bad' BEGIN SELECT RAISE(ABORT, 'refused'); END",
        )
        .execute(&pool)
        .await
        .unwrap();
        let events = vec![
            event(Some("good"), Some(1), Some("m")),
            event(Some("bad"), Some(2), Some("m")),
            event(Some("late"), Some(3), Some("m")),
        ];
        let result = run(&pool, store_events_in_sqlite("G", &events)).await;
        assert!(result.is_err());
        assert_eq!(rows(&pool).await, Vec::new());
    });
}
