use std::io::Cursor;
use std::sync::Arc;

use polars::prelude::{
    Column, CsvReadOptions, DataFrame, DataType, ParquetReader, ParquetWriter, PolarsError,
    PolarsResult, Schema, SerReader,
};
use rta::table::{DAY_COLUMN, PRICE_COLUMN, TIME_COLUMN};
use rta::{
    load, prepare, read_from_file, read_outcome, sample, sort_by_time, PipelineError, Table, Tick,
};

type Row = (Option<String>, Option<String>, Option<u64>);

fn rows_of(table: &Table) -> Vec<Row> {
    table.rows.iter().map(|t| (t.day.clone(), t.time.clone(), t.price)).collect()
}

fn row(day: &str, time: &str, price: f64) -> Row {
    (Some(day.to_string()), Some(time.to_string()), Some(price.to_bits()))
}

fn frame_of(days: Vec<Option<&str>>, times: Vec<Option<&str>>, prices: Vec<Option<f64>>) -> DataFrame {
    DataFrame::new_infer_height(vec![
        Column::new("ActionDay".into(), days),
        Column::new("UpdateTime".into(), times),
        Column::new("LastPrice".into(), prices),
    ])
    .unwrap()
}

fn csv_answer(text: &str) -> PolarsResult<DataFrame> {
    let mut schema = Schema::with_capacity(3);
    schema.with_column(DAY_COLUMN.into(), DataType::String);
    schema.with_column(TIME_COLUMN.into(), DataType::String);
    schema.with_column(PRICE_COLUMN.into(), DataType::Float64);
    CsvReadOptions::default()
        .with_schema_overwrite(Some(Arc::new(schema)))
        .into_reader_with_file_handle(Cursor::new(text.as_bytes().to_vec()))
        .finish()
}

fn parquet_answer(bytes: Vec<u8>) -> PolarsResult<DataFrame> {
    ParquetReader::new(Cursor::new(bytes)).finish()
}

fn is_sorted(rows: &[Row]) -> bool {
    rows.windows(2).all(|pair| {
        let a = (pair[0].0.as_ref().map(|s| s.as_bytes()), pair[0].1.as_ref().map(|s| s.as_bytes()));
        let b = (pair[1].0.as_ref().map(|s| s.as_bytes()), pair[1].1.as_ref().map(|s| s.as_bytes()));
        a <= b
    })
}

const CSV: &str = "ActionDay,UpdateTime,LastPrice,Volume
2024-01-02,09:00:01,101.5,7
2024-01-01,09:00:02,100.25,3
2024-01-02,09:00:00,,9
2024-01-01,09:00:01,-0.5,1
";

#[test]
fn csv_cells_are_read_back_as_written() {
    let frame = read_from_file(Some("csv"), csv_answer(CSV)).unwrap();
    let table = Table::from_frame(&frame).unwrap();
    assert_eq!(
        rows_of(&table),
        vec![
            row("2024-01-02", "09:00:01", 101.5),
            row("2024-01-01", "09:00:02", 100.25),
            (Some("2024-01-02".to_string()), Some("09:00:00".to_string()), None),
            row("2024-01-01", "09:00:01", -0.5),
        ]
    );
}

#[test]
fn parquet_cells_are_read_back_as_written() {
    let mut frame = frame_of(
        vec![Some("20240102"), None, Some("20240101")],
        vec![Some("09:00:01"), Some("09:00:02"), None],
        vec![Some(0.1), Some(f64::MAX), None],
    );
    let mut bytes: Vec<u8> = Vec::new();
    ParquetWriter::new(&mut bytes).finish(&mut frame).unwrap();
    let read = read_from_file(Some("parquet"), parquet_answer(bytes)).unwrap();
    let table = Table::from_frame(&read).unwrap();
    assert_eq!(
        rows_of(&table),
        vec![
            row("20240102", "09:00:01", 0.1),
            (None, Some("09:00:02".to_string()), Some(f64::MAX.to_bits())),
            (Some("20240101".to_string()), None, None),
        ]
    );
}

#[test]
fn load_sorts_by_day_then_time() {
    let table = load(Some("csv"), csv_answer(CSV)).unwrap();
    assert_eq!(
        rows_of(&table),
        vec![
            row("2024-01-01", "09:00:01", -0.5),
            row("2024-01-01", "09:00:02", 100.25),
            (Some("2024-01-02".to_string()), Some("09:00:00".to_string()), None),
            row("2024-01-02", "09:00:01", 101.5),
        ]
    );
}

#[test]
fn load_of_parquet_sorts_too() {
    let mut frame = frame_of(
        vec![Some("b"), Some("a"), Some("b")],
        vec![Some("2"), Some("9"), Some("1")],
        vec![Some(1.0), Some(2.0), Some(3.0)],
    );
    let mut bytes: Vec<u8> = Vec::new();
    ParquetWriter::new(&mut bytes).finish(&mut frame).unwrap();
    let table = load(Some("parquet"), parquet_answer(bytes)).unwrap();
    assert_eq!(rows_of(&table), vec![row("a", "9", 2.0), row("b", "1", 3.0), row("b", "2", 1.0)]);
}

#[test]
fn sorted_rows_stand_in_order_pair_by_pair() {
    let days = ["20240103", "20240101", "20240102", "2024", "20240101x", ""];
    let times = ["10:00:00", "09:59:59", "09:00:00", "9", "", "23:59:59"];
    let mut day_cells = Vec::new();
    let mut time_cells = Vec::new();
    let mut prices = Vec::new();
    for i in 0..180usize {
        day_cells.push(if i % 11 == 0 { None } else { Some(days[(i * 7) % days.len()]) });
        time_cells.push(if i % 13 == 0 { None } else { Some(times[(i * 5) % times.len()]) });
        prices.push(if i % 17 == 0 { None } else { Some(i as f64) });
    }
    let frame = frame_of(day_cells.clone(), time_cells.clone(), prices.clone());
    let table = prepare(frame).unwrap();
    let rows = rows_of(&table);
    assert_eq!(rows.len(), 180);
    assert!(is_sorted(&rows));
    assert_eq!(rows[0].0, None);

    let mut before: Vec<Row> = (0..180)
        .map(|i| (day_cells[i].map(String::from), time_cells[i].map(String::from), prices[i].map(f64::to_bits)))
        .collect();
    let mut after = rows.clone();
    before.sort();
    after.sort();
    assert_eq!(before, after);
}

#[test]
fn empty_cells_sort_first() {
    let frame = frame_of(
        vec![Some("a"), None, Some("a"), None, Some("")],
        vec![Some("1"), Some("2"), None, None, Some("0")],
        vec![Some(1.0), Some(2.0), Some(3.0), Some(4.0), Some(5.0)],
    );
    let table = prepare(frame).unwrap();
    assert_eq!(
        rows_of(&table),
        vec![
            (None, None, Some(4.0f64.to_bits())),
            (None, Some("2".to_string()), Some(2.0f64.to_bits())),
            row("", "0", 5.0),
            (Some("a".to_string()), None, Some(3.0f64.to_bits())),
            row("a", "1", 1.0),
        ]
    );
}

#[test]
fn strings_sort_by_their_bytes() {
    let frame = frame_of(
        vec![Some("b"), Some("B"), Some("é"), Some("ab"), Some("a"), Some("日")],
        vec![Some("0"); 6],
        vec![Some(0.0); 6],
    );
    let table = prepare(frame).unwrap();
    let days: Vec<String> = table.rows.iter().map(|t| t.day.clone().unwrap()).collect();
    assert_eq!(days, vec!["B", "a", "ab", "b", "é", "日"]);
}

#[test]
fn sort_by_time_keeps_the_row_count() {
    let mut frame = frame_of(
        vec![Some("c"), Some("a"), Some("b")],
        vec![Some("1"), Some("1"), Some("1")],
        vec![Some(3.0), Some(1.0), Some(2.0)],
    );
    sort_by_time(&mut frame).unwrap();
    assert_eq!(frame.height(), 3);
    let table = Table::from_frame(&frame).unwrap();
    assert_eq!(rows_of(&table), vec![row("a", "1", 1.0), row("b", "1", 2.0), row("c", "1", 3.0)]);
}

#[test]
fn sort_by_time_without_a_key_column_is_a_schema_failure() {
    let mut frame = DataFrame::new_infer_height(vec![
        Column::new("ActionDay".into(), vec!["b", "a"]),
        Column::new("LastPrice".into(), vec![1.0, 2.0]),
    ])
    .unwrap();
    assert_eq!(sort_by_time(&mut frame).unwrap_err(), PipelineError::Schema);
    assert_eq!(frame.height(), 2);
    let days: Vec<Option<&str>> = frame.column("ActionDay").unwrap().str().unwrap().iter().collect();
    assert_eq!(days, vec![Some("b"), Some("a")]);
}

#[test]
fn missing_column_is_a_schema_failure() {
    let frame = DataFrame::new_infer_height(vec![
        Column::new("ActionDay".into(), vec!["a"]),
        Column::new("UpdateTime".into(), vec!["1"]),
    ])
    .unwrap();
    assert_eq!(Table::from_frame(&frame).unwrap_err(), PipelineError::Schema);
    assert_eq!(prepare(frame).unwrap_err(), PipelineError::Schema);
}

#[test]
fn column_of_another_type_is_a_schema_failure() {
    let numbers_for_days = DataFrame::new_infer_height(vec![
        Column::new("ActionDay".into(), vec![20240101i64, 20240102]),
        Column::new("UpdateTime".into(), vec!["1", "2"]),
        Column::new("LastPrice".into(), vec![1.0, 2.0]),
    ])
    .unwrap();
    assert_eq!(Table::from_frame(&numbers_for_days).unwrap_err(), PipelineError::Schema);
    assert_eq!(prepare(numbers_for_days).unwrap_err(), PipelineError::Schema);

    let whole_prices = DataFrame::new_infer_height(vec![
        Column::new("ActionDay".into(), vec!["a", "b"]),
        Column::new("UpdateTime".into(), vec!["1", "2"]),
        Column::new("LastPrice".into(), vec![1i64, 2]),
    ])
    .unwrap();
    assert_eq!(prepare(whole_prices).unwrap_err(), PipelineError::Schema);
}

#[test]
fn csv_with_bare_digits_is_read_by_the_types_of_a_tick() {
    let text = "ActionDay,UpdateTime,LastPrice\n20240101,093000,100\n20240101,092959,99.5\n";
    let table = load(Some("csv"), csv_answer(text)).unwrap();
    assert_eq!(
        rows_of(&table),
        vec![row("20240101", "092959", 99.5), row("20240101", "093000", 100.0)]
    );
}

#[test]
fn csv_read_with_guessed_types_is_a_schema_failure_on_bare_digits() {
    let text = "ActionDay,UpdateTime,LastPrice\n20240101,09:00:00,1.5\n";
    let guessed = CsvReadOptions::default()
        .into_reader_with_file_handle(Cursor::new(text.as_bytes().to_vec()))
        .finish();
    assert_eq!(load(Some("csv"), guessed).unwrap_err(), PipelineError::Schema);
}

#[test]
fn bytes_that_are_no_table_are_an_io_failure() {
    let garbage = b"this is no columnar file".to_vec();
    assert_eq!(read_from_file(Some("parquet"), parquet_answer(garbage.clone())).unwrap_err(), PipelineError::Io);
    assert_eq!(load(Some("parquet"), parquet_answer(garbage)).unwrap_err(), PipelineError::Io);
    assert_eq!(load(Some("parquet"), parquet_answer(Vec::new())).unwrap_err(), PipelineError::Io);
}

#[test]
fn frame_without_rows_gives_a_table_without_rows() {
    let frame = frame_of(Vec::new(), Vec::new(), Vec::new());
    let table = prepare(frame).unwrap();
    assert_eq!(table.len(), 0);
    assert_eq!(sample(&table, 120).unwrap().len(), 0);
}

#[test]
fn constant_prices_over_241_rows_give_three_points() {
    let times: Vec<String> = (0..241).map(|i| format!("{:02}:{:02}:{:02}", i / 3600, (i / 60) % 60, i % 60)).collect();
    let mut order: Vec<usize> = (0..241).collect();
    order.reverse();
    let frame = frame_of(
        vec![Some("20240101"); 241],
        order.iter().map(|&i| Some(times[i].as_str())).collect(),
        vec![Some(100.0); 241],
    );
    let table = prepare(frame).unwrap();
    assert_eq!(table.len(), 241);
    let series = sample(&table, 120).unwrap();
    assert_eq!(series.labels, vec!["20240101_00:00:00", "20240101_00:02:00", "20240101_00:04:00"]);
    assert_eq!(series.values, vec![100.0f64.to_bits(); 3]);
    let layout = rta::plan_chart(&series).unwrap();
    assert_eq!(layout.width, 1030);
    assert_eq!(layout.last, 2);
    assert_eq!(f64::from_bits(layout.low), 100.0);
    assert_eq!(f64::from_bits(layout.high), 100.0);
    let margin = (0.05 * (100.0f64 - 100.0)).max(1e-8);
    let wide = rta::widen_bounds(
        layout.low,
        layout.high,
        (100.0 - margin).to_bits(),
        (100.0 + margin).to_bits(),
    )
    .unwrap();
    let (axis_min, axis_max) = (f64::from_bits(wide.0), f64::from_bits(wide.1));
    assert!(axis_min < 100.0 && 100.0 < axis_max);
    assert_eq!((axis_min, axis_max), (100.0 - 1e-8, 100.0 + 1e-8));
}

#[test]
fn read_from_file_goes_by_the_extension() {
    let frame = read_from_file(Some("csv"), csv_answer(CSV)).unwrap();
    assert_eq!(frame.height(), 4);
    assert_eq!(frame.width(), 4);

    let mut written = frame_of(vec![Some("a")], vec![Some("1")], vec![Some(1.0)]);
    let mut bytes: Vec<u8> = Vec::new();
    ParquetWriter::new(&mut bytes).finish(&mut written).unwrap();
    let frame = read_from_file(Some("parquet"), parquet_answer(bytes.clone())).unwrap();
    assert_eq!(frame.height(), 1);
    assert_eq!(
        Table::from_frame(&frame).unwrap().rows,
        vec![Tick { day: Some("a".to_string()), time: Some("1".to_string()), price: Some(1.0f64.to_bits()) }]
    );
}

#[test]
fn read_from_file_refuses_other_extensions_whatever_the_answer() {
    for extension in [None, Some(""), Some("txt"), Some("CSV"), Some("json")] {
        assert_eq!(
            read_from_file(extension, csv_answer(CSV)).unwrap_err(),
            PipelineError::UnsupportedFormat
        );
        assert_eq!(
            read_from_file(extension, Err(PolarsError::NoData("nothing read".into()))).unwrap_err(),
            PipelineError::UnsupportedFormat
        );
    }
}

#[test]
fn read_from_file_reports_unreadable_bytes_as_io() {
    assert_eq!(
        read_from_file(Some("parquet"), parquet_answer(CSV.as_bytes().to_vec())).unwrap_err(),
        PipelineError::Io
    );
}

#[test]
fn read_outcome_hands_the_frame_on() {
    let frame = frame_of(
        vec![Some("b"), None, Some("a")],
        vec![Some("2"), Some("1"), None],
        vec![Some(1.5), None, Some(-3.0)],
    );
    let handed = read_outcome(Ok(frame.clone())).unwrap();
    assert!(handed.equals_missing(&frame));
    assert_eq!(handed.height(), 3);
    assert_eq!(rows_of(&Table::from_frame(&handed).unwrap()), rows_of(&Table::from_frame(&frame).unwrap()));
}

#[test]
fn read_outcome_turns_a_refusal_into_io() {
    let refusal = PolarsError::ComputeError("no table".into());
    assert_eq!(read_outcome(Err(refusal)).unwrap_err(), PipelineError::Io);
    let refusal = PolarsError::NoData("empty".into());
    assert_eq!(read_outcome(Err(refusal)).unwrap_err(), PipelineError::Io);
}

#[test]
fn sort_by_time_needs_only_the_key_columns() {
    let mut frame = DataFrame::new_infer_height(vec![
        Column::new("UpdateTime".into(), vec!["2", "1", "3"]),
        Column::new("ActionDay".into(), vec!["a", "a", "a"]),
        Column::new("Volume".into(), vec![20i64, 10, 30]),
    ])
    .unwrap();
    sort_by_time(&mut frame).unwrap();
    let times: Vec<Option<&str>> = frame.column("UpdateTime").unwrap().str().unwrap().iter().collect();
    assert_eq!(times, vec![Some("1"), Some("2"), Some("3")]);
    let volumes: Vec<Option<i64>> = frame.column("Volume").unwrap().i64().unwrap().iter().collect();
    assert_eq!(volumes, vec![Some(10), Some(20), Some(30)]);
    assert_eq!(Table::from_frame(&frame).unwrap_err(), PipelineError::Schema);
}

#[test]
fn parquet_without_tick_columns_is_a_schema_failure() {
    let mut frame = DataFrame::new_infer_height(vec![
        Column::new("ActionDay".into(), vec!["a", "b"]),
        Column::new("UpdateTime".into(), vec!["1", "2"]),
    ])
    .unwrap();
    let mut bytes: Vec<u8> = Vec::new();
    ParquetWriter::new(&mut bytes).finish(&mut frame).unwrap();
    assert_eq!(read_from_file(Some("parquet"), parquet_answer(bytes.clone())).unwrap().height(), 2);
    assert_eq!(load(Some("parquet"), parquet_answer(bytes)).unwrap_err(), PipelineError::Schema);
}

#[test]
fn same_parquet_bytes_load_to_the_same_table() {
    let mut frame = frame_of(
        vec![Some("b"), Some("a"), None, Some("b")],
        vec![Some("2"), Some("9"), Some("5"), Some("1")],
        vec![Some(1.0), None, Some(3.0), Some(4.0)],
    );
    let mut bytes: Vec<u8> = Vec::new();
    ParquetWriter::new(&mut bytes).finish(&mut frame).unwrap();
    let first = load(Some("parquet"), parquet_answer(bytes.clone())).unwrap();
    let second = load(Some("parquet"), parquet_answer(bytes.clone())).unwrap();
    assert_eq!(first, second);
    assert_eq!(
        rows_of(&first),
        vec![
            (None, Some("5".to_string()), Some(3.0f64.to_bits())),
            (Some("a".to_string()), Some("9".to_string()), None),
            row("b", "1", 4.0),
            row("b", "2", 1.0),
        ]
    );
    let read = read_from_file(Some("parquet"), parquet_answer(bytes)).unwrap();
    assert_eq!(rows_of(&prepare(read).unwrap()), rows_of(&first));
}

#[test]
fn csv_with_only_a_header_gives_a_table_without_rows() {
    let text = "ActionDay,UpdateTime,LastPrice\n";
    let frame = read_from_file(Some("csv"), csv_answer(text)).unwrap();
    assert_eq!(frame.height(), 0);
    let table = load(Some("csv"), csv_answer(text)).unwrap();
    assert_eq!(table.len(), 0);
    assert_eq!(sample(&table, 120).unwrap().len(), 0);
}

#[test]
fn load_judges_the_extension_before_the_answer() {
    for extension in [None, Some("txt"), Some("CSV")] {
        assert_eq!(load(extension, csv_answer(CSV)).unwrap_err(), PipelineError::UnsupportedFormat);
        let refusal = PolarsError::ComputeError("no table".into());
        assert_eq!(load(extension, Err(refusal)).unwrap_err(), PipelineError::UnsupportedFormat);
    }
    let refusal = PolarsError::ComputeError("no table".into());
    assert_eq!(load(Some("csv"), Err(refusal)).unwrap_err(), PipelineError::Io);
    let refusal = PolarsError::ComputeError("no table".into());
    assert_eq!(load(Some("parquet"), Err(refusal)).unwrap_err(), PipelineError::Io);
}
