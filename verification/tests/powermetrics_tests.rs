use simple_profiler::powermetrics::{gpu_table_rows, GpuTableError};

const REAL_TABLE: &str = "*** Running tasks ***

Name                               ID     CPU ms/s  User%  Deadlines (<2 ms, 2-5 ms)  Wakeups (Intr, Pkg idle)  GPU ms/s
Google Chrome Helper (Renderer)    42     9.00      50.00  0.00    0.00               1.00    0.00              125.50
DEAD_TASKS                         -1     1.00      50.00  0.00    0.00               1.00    0.00              99.00

**** Processor usage ****
";

#[test]
fn table_rows_are_read_by_their_numeric_tail() {
    let rows = gpu_table_rows(REAL_TABLE).expect("text table");
    assert_eq!(rows.len(), 1);
    assert_eq!(rows[0].pid, 42);
    assert_eq!(rows[0].gpu_ms_per_second, "125.50");
}

#[test]
fn an_idle_table_lists_its_rows() {
    let source = "Name ID CPU ms/s User% GPU ms/s\nidle 7 0.00 0.00 0.00 0.00 0.00 0.00 0.00\n\n";
    let rows = gpu_table_rows(source).expect("idle table");
    assert_eq!(rows.len(), 1);
    assert_eq!(rows[0].pid, 7);
    assert_eq!(rows[0].gpu_ms_per_second, "0.00");
}

#[test]
fn the_table_ends_at_the_first_blank_line() {
    let source = "Name ID CPU ms/s User% GPU ms/s\r\n\
a 1 0 0 0 0 0 0 3.5\r\n\
   \r\n\
b 2 0 0 0 0 0 0 4.5\r\n";
    let rows = gpu_table_rows(source).expect("table");
    assert_eq!(rows.len(), 1);
    assert_eq!(rows[0].pid, 1);
    assert_eq!(rows[0].gpu_ms_per_second, "3.5");
}

#[test]
fn short_rows_and_bad_ids_are_skipped() {
    let source = "  Name ID CPU ms/s User% GPU ms/s\n\
short 1 2 3\n\
x +9 0 0 0 0 0 0 1.0\n\
y 4294967296 0 0 0 0 0 0 2.0\n\
z 4294967295 0 0 0 0 0 0 3.0";
    let rows = gpu_table_rows(source).expect("table");
    assert_eq!(rows.len(), 2);
    assert_eq!(rows[0].pid, 9);
    assert_eq!(rows[1].pid, 4294967295);
    assert_eq!(rows[1].gpu_ms_per_second, "3.0");
}

#[test]
fn output_without_a_gpu_column_is_refused() {
    let error = gpu_table_rows("Name ID CPU ms/s User%\nidle 7 0 0 0 0 0 0 0\n").unwrap_err();
    assert_eq!(error, GpuTableError::MissingGpuColumn);
    assert_eq!(error.message(), "powermetrics returned no per-process GPU column");
    assert_eq!(gpu_table_rows("").unwrap_err(), GpuTableError::MissingGpuColumn);
}

#[test]
fn a_header_without_the_cpu_columns_is_refused() {
    let error = gpu_table_rows("Name ID GPU ms/s\nidle 7 0\n").unwrap_err();
    assert_eq!(error, GpuTableError::UnsupportedLayout);
    assert_eq!(
        error.message(),
        "powermetrics process table had an unsupported column layout"
    );
}
