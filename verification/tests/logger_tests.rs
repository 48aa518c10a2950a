use lionbootloader_core::logger::Level;
use lionbootloader_core::logger::LevelFilter;
use lionbootloader_core::logger::LogWriter;
use lionbootloader_core::logger::get_log_level;
use lionbootloader_core::logger::init_global_logger;
use lionbootloader_core::logger::level_filter_to_usize;
use lionbootloader_core::logger::set_log_level;

#[test]
fn test_logger_levels() {
    let mut logger = init_global_logger(LevelFilter::Info);
    assert_eq!(get_log_level(&logger), LevelFilter::Info);

    logger.log(Level::Error, "Error visible (Info)");
    logger.log(Level::Warn, "Warn visible (Info)");
    logger.log(Level::Info, "Info visible (Info)");
    logger.log(Level::Debug, "Debug NOT visible (Info)");
    logger.log(Level::Trace, "Trace NOT visible (Info)");

    set_log_level(&mut logger, LevelFilter::Debug);
    assert_eq!(get_log_level(&logger), LevelFilter::Debug);
    logger.log(Level::Debug, "Debug NOW visible (Debug)");

    set_log_level(&mut logger, LevelFilter::Off);
    assert_eq!(get_log_level(&logger), LevelFilter::Off);
    logger.log(Level::Error, "Error NOT visible (Off)");
}

#[test]
fn logger_buffers_only_visible_records() {
    let mut logger = init_global_logger(LevelFilter::Info);
    assert!(logger.log(Level::Error, "Error visible (Info)"));
    assert!(logger.log(Level::Warn, "Warn visible (Info)"));
    assert!(logger.log(Level::Info, "Info visible (Info)"));
    assert!(!logger.log(Level::Debug, "Debug NOT visible (Info)"));
    assert!(!logger.log(Level::Trace, "Trace NOT visible (Info)"));
    assert_eq!(logger.buffered(), 3);

    set_log_level(&mut logger, LevelFilter::Debug);
    assert!(logger.log(Level::Debug, "Debug NOW visible (Debug)"));
    assert_eq!(logger.buffered(), 4);

    set_log_level(&mut logger, LevelFilter::Off);
    assert!(!logger.log(Level::Error, "Error NOT visible (Off)"));
    assert_eq!(logger.buffered(), 4);
}

struct CollectingSink {
    lines: Vec<String>,
}

impl LogWriter for CollectingSink {
    fn write_line(&mut self, line: &str) {
        self.lines.push(line.to_string());
    }
}

#[test]
fn logger_flush_drains_to_the_sink() {
    let mut logger = init_global_logger(LevelFilter::Trace);
    logger.log(Level::Info, "first");
    logger.log(Level::Trace, "second");
    let mut sink = CollectingSink { lines: Vec::new() };
    logger.flush(&mut sink);
    assert_eq!(sink.lines, vec!["first".to_string(), "second".to_string()]);
    assert_eq!(logger.buffered(), 0);
}

#[test]
fn level_filter_ranks_are_ordered() {
    assert_eq!(level_filter_to_usize(LevelFilter::Off), 0);
    assert_eq!(level_filter_to_usize(LevelFilter::Error), 1);
    assert_eq!(level_filter_to_usize(LevelFilter::Warn), 2);
    assert_eq!(level_filter_to_usize(LevelFilter::Info), 3);
    assert_eq!(level_filter_to_usize(LevelFilter::Debug), 4);
    assert_eq!(level_filter_to_usize(LevelFilter::Trace), 5);
}
