use brain_b2b::cache::{Cache, Load, Tick};
use brain_b2b::go::Go;
use brain_b2b::log::{client_message, server_message, Log};
use brain_b2b::param::{Format, Lang, Param, PriceVolume};
use brain_b2b::price::{Access, Price};
use brain_b2b::serve::Moment;
use brain_b2b::fastcgi::{ContentData, HeaderType};
use brain_b2b::worker::{Record, Status, Step, Worker};

fn param() -> Param {
    Param {
        user_id: 3,
        company_id: 100,
        target_id: 10,
        format_str: "xlsx".to_string(),
        format: Format::XLSX,
        lang: Lang::RU,
        lang_str: "ru".to_string(),
        pc_vinga: true,
        pc_vinga_str: "1".to_string(),
        volume: PriceVolume::Short,
        volume_str: "2".to_string(),
        uah: false,
        nds_orig: false,
        nds: false,
        round: false,
        ean: false,
        api: false,
    }
}

#[test]
fn file_names() {
    assert_eq!(
        Price::get_file_name("/srv", &param(), "20240102_030405"),
        "/srv/cache/price_100_3_10_ru_2_1_20240102_030405.xlsx"
    );
    assert_eq!(Price::file_pattern("/srv", &param()), "/srv/cache/price_100_3_10_ru_2_1_*.xlsx");
}

#[test]
fn the_stamp_follows_the_seventh_underscore() {
    let stamp = |name: &str| Price::stamp_of(name.as_bytes()).map(|v| String::from_utf8(v).unwrap());
    assert_eq!(
        stamp("/cache/price_100_3_10_ru_2_1_20240102_030405.xlsx").as_deref(),
        Some("20240102_030405")
    );
    assert_eq!(stamp("/cache/price_100_3_10_ru_2_1_20240102_03040").as_deref(), None);
    assert_eq!(stamp("/cache/price_100_3_10_ru_2_1_x.json").as_deref(), None);
    assert_eq!(stamp("/cache/price_100_3_10_ru_2_20240102_030405.xlsx").as_deref(), None);
    assert_eq!(stamp("").as_deref(), None);
    assert_eq!(stamp("_______123456789012345").as_deref(), Some("123456789012345"));
    assert_eq!(stamp("_______12345678901234").as_deref(), None);
}

#[test]
fn artifact_reuse() {
    let now = 1_700_000_000;
    assert_eq!(Price::choose_file(&vec![Some(now - 1)], now), Some(0));
    assert_eq!(Price::choose_file(&vec![Some(now - 1799)], now), Some(0));
    assert_eq!(Price::choose_file(&vec![Some(now - 1800)], now), Some(0));
    assert_eq!(Price::choose_file(&vec![Some(now - 1801)], now), None);
    assert_eq!(Price::choose_file(&vec![Some(0)], 1800), Some(0));
    assert_eq!(Price::choose_file(&vec![Some(0)], 1801), None);
    assert_eq!(Price::choose_file(&vec![Some(now - 1801), Some(now - 1800)], now), Some(1));
    assert_eq!(Price::choose_file(&vec![], now), None);
    assert_eq!(Price::choose_file(&vec![None, Some(now - 5000), Some(now - 10), Some(now)], now), Some(2));
    assert_eq!(Price::choose_file(&vec![Some(i64::MAX)], i64::MIN), Some(0));
    assert_eq!(Price::choose_file(&vec![Some(i64::MIN)], i64::MAX), None);
    assert_eq!(Price::choose_file(&vec![Some(i64::MAX - 1800)], i64::MAX), Some(0));
}

#[test]
fn the_answer_carries_the_length_of_the_file() {
    let log = Log::new(1, "/tmp");
    let body = b"{\"7\":{}}".to_vec();
    let answer = Price::calc(&Ok(body.clone()), Format::JSON, "price_1.json", &log);
    let expected = format!(
        "HTTP/1.1 200 OK\r\nContent-Type: application/json\r\nContent-Disposition: attachment; filename=\"price_1.json\"\r\nContent-Length: {}\r\n\r\n{}",
        body.len(),
        "{\"7\":{}}"
    );
    assert_eq!(String::from_utf8(answer).unwrap(), expected);
    for (format, line) in [
        (Format::XLSX, "Content-Type: application/vnd.openxmlformats-officedocument.spreadsheetml.sheet\r\n"),
        (Format::XML, "Content-Type: application/xml\r\n"),
        (Format::PHP, "Content-Type: application/vnd.php.serialized\r\n"),
    ] {
        let body = vec![0u8; 1234];
        let answer = Price::calc(&Ok(body), format, "f", &log);
        let head = String::from_utf8(answer[..answer.len() - 1234].to_vec()).unwrap();
        assert!(head.contains(line));
        assert!(head.ends_with("Content-Length: 1234\r\n\r\n"));
    }
    let answer = Price::calc(&Err(23), Format::JSON, "", &log);
    let text = String::from_utf8(answer).unwrap();
    let (head, page) = text.split_once("\r\n\r\n").unwrap();
    assert_eq!(page, log.client_err(23));
    assert_eq!(
        head,
        format!(
            "HTTP/1.1 401 Unauthorized\r\nContent-Type: text/html; charset=utf-8\r\nContent-Length: {}",
            page.len()
        )
    );
}

#[test]
fn error_texts() {
    let log = Log::new(42, "/srv");
    assert_eq!(log.file, "/srv/error.log");
    assert_eq!(log.pid, 42);
    assert_eq!(
        log.client_err(16),
        "<!DOCTYPE HTML><html><head><title>PriceList</title><meta charset=\"utf-8\"/></head><body>Помилка 16: Невірний token</body></html>"
    );
    for code in 1..=32u32 {
        assert!(client_message(code).starts_with(&format!("Помилка {}: ", code)));
    }
    assert_eq!(client_message(0), "Невідома помилка");
    assert_eq!(client_message(33), "Невідома помилка");
    assert_eq!(log.get_error(100), "Відсутній файл конфігурації");
    assert_eq!(log.get_error(603), "Не вдалося встановити початкові параметри підключення");
    assert_eq!(log.get_error(1), "Невідома помилка");
    assert_eq!(server_message(301), "Сокет IRC занятий");
    assert_eq!(
        log.line("2024.01.02 03:04:05", 601, "refused"),
        "2024.01.02 03:04:05 PID=42 Помилка 601: Помилка з'єднання з базою даних. Опис: refused\n"
    );
    assert_eq!(
        log.line("t", 500, ""),
        "t PID=42 Помилка 500: Проблеми з чергою потоків.\n"
    );
}

#[test]
fn the_query_names_the_profile_the_company_and_the_products() {
    let access = Access { corp: false, rozn: true, r3: false, profile_id: 3 };
    let sql = Price::query(&access, 100, &vec![7, 8, 1053]);
    assert!(sql.contains("p.RetailPrice AS RetailPrice, 0 AS InternetPrice"));
    assert!(sql.contains("IF(ProfilesID = 3, fieldprice, null)"));
    assert!(sql.contains("cd.CompanyID=100"));
    assert!(sql.contains("WHERE p.productID IN (7,8,1053)"));
    let access = Access { corp: false, rozn: false, r3: true, profile_id: 3 };
    let sql = Price::query(&access, 100, &vec![]);
    assert!(sql.contains("0 AS RetailPrice, p.Price3 AS InternetPrice"));
    assert!(sql.contains("WHERE p.productID IN ()"));
}

#[test]
fn a_request_runs_its_course() {
    let mut w = Worker::new();
    assert_eq!(w.status, Status::Idle);
    assert_eq!(w.fastcgi_connection(Record::BeginRequest), Step::Begun);
    assert_eq!(w.status, Status::Begin);
    assert_eq!(w.fastcgi_connection(Record::Other), Step::Next);
    assert_eq!(w.fastcgi_connection(Record::Params), Step::AddParams);
    assert_eq!(w.fastcgi_connection(Record::Params), Step::AddParams);
    assert_eq!(w.status, Status::Param);
    assert_eq!(w.fastcgi_connection(Record::ParamsEnd), Step::Next);
    assert_eq!(w.status, Status::ParamEnd);
    assert_eq!(w.fastcgi_connection(Record::Stdin), Step::AddStdin);
    assert_eq!(w.status, Status::Stdin);
    assert_eq!(w.fastcgi_connection(Record::StdinEnd), Step::Run);
    assert_eq!(w.status, Status::Work);
    w.answered();
    assert_eq!(w.status, Status::End);
    w.start = true;
    w.release();
    assert_eq!((w.status, w.start), (Status::Idle, false));
}

#[test]
fn a_record_out_of_turn_closes_the_connection() {
    let step = |status: Status, record: Record| {
        let mut w = Worker::new();
        w.status = status;
        let s = w.fastcgi_connection(record);
        (w.status, s)
    };
    assert_eq!(step(Status::Begin, Record::BeginRequest), (Status::Begin, Step::Close));
    assert_eq!(step(Status::Idle, Record::Params), (Status::Idle, Step::Close));
    assert_eq!(step(Status::ParamEnd, Record::Params), (Status::ParamEnd, Step::Close));
    assert_eq!(step(Status::Stdin, Record::ParamsEnd), (Status::Stdin, Step::Close));
    assert_eq!(step(Status::Param, Record::Stdin), (Status::Param, Step::Close));
    assert_eq!(step(Status::Param, Record::StdinEnd), (Status::Param, Step::Close));
    assert_eq!(step(Status::Work, Record::StdinEnd), (Status::Work, Step::Close));
    assert_eq!(step(Status::End, Record::Stdin), (Status::End, Step::Close));
    assert_eq!(step(Status::Begin, Record::StdinEnd), (Status::Work, Step::Run));
    assert_eq!(step(Status::Begin, Record::ParamsEnd), (Status::ParamEnd, Step::Next));
    assert_eq!(step(Status::Param, Record::Malformed), (Status::Param, Step::Close));
    assert_eq!(step(Status::Param, Record::AbortRequest), (Status::Param, Step::Abort));
    assert_eq!(step(Status::Idle, Record::AbortRequest), (Status::Idle, Step::Abort));
}

#[test]
fn the_first_free_executor_takes_the_connection() {
    let mut go = Go::new(3);
    assert_eq!(go.start, vec![false, false, false]);
    assert_eq!(go.create_sender(), Some(0));
    assert_eq!(go.create_sender(), Some(1));
    assert_eq!(go.use_connection, 2);
    go.release(0);
    assert_eq!(go.use_connection, 1);
    assert_eq!(go.create_sender(), Some(0));
    assert_eq!(go.create_sender(), Some(2));
    assert_eq!(go.create_sender(), None);
    assert_eq!(go.use_connection, 3);
    go.release(1);
    assert!(!go.set_stop(b"stop "));
    assert!(!go.set_stop(b""));
    assert!(!go.stop);
    assert!(go.set_stop(b"stop"));
    assert!(go.stop);
    assert!(!go.set_stop(b"go"));
    assert!(go.stop);
    assert_eq!(go.create_sender(), None);
    assert_eq!(go.start, vec![true, false, true]);
    assert_eq!(Go::new(0).create_sender(), None);
}

#[test]
fn a_pass_is_due_every_five_minutes() {
    let mut c = Cache::new();
    assert!(!c.load);
    assert_eq!(c.start(0), Tick::Pass);
    c.finish_pass(1000);
    assert!(c.load);
    assert_eq!(c.start(1000), Tick::Wait);
    assert_eq!(c.start(1299), Tick::Wait);
    assert_eq!(c.start(1300), Tick::Pass);
    c.finish_pass(i64::MIN);
    assert_eq!(c.start(i64::MAX), Tick::Pass);
    c.finish_pass(i64::MAX);
    assert_eq!(c.start(i64::MIN), Tick::Wait);
}

#[test]
fn the_loads_of_a_pass_come_in_a_fixed_order() {
    let mut order = vec![Cache::first()];
    while let Some(next) = Cache::next(*order.last().unwrap()) {
        order.push(next);
    }
    assert_eq!(
        order,
        vec![
            Load::Auth, Load::Currency, Load::Country, Load::Target, Load::Lock, Load::Product,
            Load::Stock, Load::Bg
        ]
    );
}

#[test]
fn a_record_is_seen_by_its_type_and_content() {
    let stream = ContentData::Stream(vec![1]);
    let params = ContentData::Param(vec![]);
    let empty = ContentData::Empty;
    assert_eq!(Worker::kind(HeaderType::BeginRequest, &empty), Record::BeginRequest);
    assert_eq!(Worker::kind(HeaderType::AbortRequest, &stream), Record::AbortRequest);
    assert_eq!(Worker::kind(HeaderType::Params, &params), Record::Params);
    assert_eq!(Worker::kind(HeaderType::Params, &empty), Record::ParamsEnd);
    assert_eq!(Worker::kind(HeaderType::Params, &stream), Record::Malformed);
    assert_eq!(Worker::kind(HeaderType::Stdin, &stream), Record::Stdin);
    assert_eq!(Worker::kind(HeaderType::Stdin, &empty), Record::StdinEnd);
    assert_eq!(Worker::kind(HeaderType::Stdin, &params), Record::Malformed);
    assert_eq!(Worker::kind(HeaderType::Stdout, &empty), Record::Other);
    assert_eq!(Worker::kind(HeaderType::Unknown, &stream), Record::Other);
}

#[test]
fn a_stamp_writes_a_moment() {
    assert_eq!(
        Price::moment(b"20240102_030405"),
        Some(Moment { year: 2024, month: 1, day: 2, hour: 3, minute: 4, second: 5 })
    );
    assert_eq!(
        Price::moment(b"99991399_996199"),
        Some(Moment { year: 9999, month: 13, day: 99, hour: 99, minute: 61, second: 99 })
    );
    assert_eq!(Price::moment(b"20240102-030405"), None);
    assert_eq!(Price::moment(b"20240102_03040"), None);
    assert_eq!(Price::moment(b"20240102_0304050"), None);
    assert_eq!(Price::moment(b"+0240102_030405"), None);
    assert_eq!(Price::moment(b"2024+102_030405"), None);
    assert_eq!(Price::moment(b"2024010x_030405"), None);
    assert_eq!(Price::moment(b"20240102_03040 "), None);
    assert_eq!(Price::moment(b""), None);
}

#[test]
fn all_files_but_the_kept_one_are_removed() {
    assert_eq!(Price::files_to_remove(4, Some(2)), vec![0, 1, 3]);
    assert_eq!(Price::files_to_remove(3, None), vec![0, 1, 2]);
    assert_eq!(Price::files_to_remove(1, Some(0)), Vec::<usize>::new());
    assert_eq!(Price::files_to_remove(0, None), Vec::<usize>::new());
    assert_eq!(Price::files_to_remove(2, Some(5)), vec![0, 1]);
    let now = 1_700_000_000;
    let stamps = vec![Some(now - 1)];
    let keep = Price::choose_file(&stamps, now);
    assert_eq!(keep, Some(0));
    assert_eq!(Price::files_to_remove(stamps.len(), keep), Vec::<usize>::new());
}
