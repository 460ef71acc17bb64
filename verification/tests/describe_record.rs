use maimai_scraping::maimai::schema::latest::{
    JudgeCount, JudgeCountWithCP, JudgeCountWithoutCP, JudgeResult,
};
use maimai_scraping::watcher::describe_record::make_barely_fc;

fn wto(b: u32, c: u32, d: u32, e: u32) -> JudgeCountWithoutCP {
    JudgeCountWithoutCP { perfect: b, great: c, good: d, miss: e }
}
fn wcp(a: u32, b: u32, c: u32, d: u32, e: u32) -> JudgeCountWithCP {
    JudgeCountWithCP { critical_perfect: a, others: wto(b, c, d, e) }
}
fn cnt(a: u32, b: u32, c: u32, d: u32, e: u32) -> JudgeCount {
    JudgeCount::JudgeCountWithCP(wcp(a, b, c, d, e))
}
fn cnt_without_cp(b: u32, c: u32, d: u32, e: u32) -> JudgeCount {
    JudgeCount::JudgeCountWithoutCP(wto(b, c, d, e))
}

fn assert_barely_fc(
    tap: JudgeCount,
    hold: JudgeCount,
    slide: JudgeCount,
    touch: JudgeCount,
    break_: JudgeCountWithCP,
    expected: Option<&'static str>,
) {
    let judge = JudgeResult { fast: 0, late: 0, tap, hold, slide, touch, break_ };
    let result = make_barely_fc(judge, 1); // border = 10
    assert_eq!(result.as_deref(), expected);
}

#[test]
fn test_make_barely_fc() {
    assert_barely_fc(
        cnt(100, 0, 0, 0, 0),
        cnt(100, 0, 0, 0, 0),
        cnt(100, 0, 0, 0, 0),
        cnt(100, 0, 0, 0, 0),
        wcp(100, 0, 0, 0, 0),
        None,
    );
    assert_barely_fc(
        cnt(100, 0, 1, 0, 0),
        cnt(100, 0, 0, 0, 0),
        cnt(100, 0, 0, 0, 0),
        cnt(100, 0, 0, 0, 0),
        wcp(100, 0, 0, 0, 0),
        Some("TG for ACP"),
    );
    assert_barely_fc(
        cnt(100, 0, 2, 0, 0),
        cnt(100, 0, 0, 0, 0),
        cnt(100, 0, 0, 0, 0),
        cnt(100, 0, 0, 0, 0),
        wcp(100, 0, 0, 0, 0),
        Some("TG2 for ACP"),
    );
    assert_barely_fc(
        cnt(100, 100, 2, 0, 0),
        cnt(100, 100, 0, 0, 0),
        cnt(100, 0, 0, 0, 0),
        cnt(100, 0, 0, 0, 0),
        wcp(100, 100, 0, 0, 0),
        Some("TG2 for AP"),
    );
    assert_barely_fc(
        cnt(100, 100, 2, 0, 0),
        cnt(100, 100, 0, 0, 0),
        cnt(100, 0, 0, 0, 0),
        cnt(100, 0, 0, 0, 0),
        wcp(100, 5, 0, 0, 0),
        Some("BP5 TG2 for AP+"),
    );
    assert_barely_fc(
        cnt(100, 100, 0, 3, 1),
        cnt(100, 100, 0, 0, 0),
        cnt(100, 0, 0, 0, 0),
        cnt(100, 0, 0, 1, 1),
        wcp(100, 7, 0, 0, 0),
        Some("Tg3 tg Tm tm for AP"),
    );
    assert_barely_fc(
        cnt(330, 302, 24, 3, 1),
        cnt(2, 4, 0, 0, 0),
        cnt(68, 0, 1, 0, 0),
        JudgeCount::Nothing,
        wcp(8, 5, 0, 0, 0),
        Some("Tg3 Tm for FC+"),
    );
    assert_barely_fc(
        cnt(124, 85, 0, 0, 0),
        cnt(21, 9, 2, 0, 0),
        cnt(25, 0, 0, 0, 0),
        cnt(2, 0, 0, 0, 0),
        wcp(9, 0, 0, 0, 0),
        Some("HG2 for AP+"),
    );
}

#[test]
fn barely_fc_without_critical_perfect_column() {
    // With a kind lacking the critical-perfect column there is no ACP report.
    assert_barely_fc(
        cnt_without_cp(100, 0, 0, 0),
        cnt(100, 0, 0, 0, 0),
        cnt(100, 0, 0, 0, 0),
        cnt(100, 0, 0, 0, 0),
        wcp(100, 0, 0, 0, 0),
        None,
    );
    assert_barely_fc(
        cnt_without_cp(100, 0, 0, 2),
        cnt(100, 0, 0, 0, 0),
        cnt(100, 0, 0, 0, 0),
        cnt(100, 0, 0, 0, 0),
        wcp(100, 0, 0, 0, 0),
        Some("Tm2 for AP+"),
    );
}
