use skills_sh::status::{check_status, is_success};
use skills_sh::url::{decimal_string, page_url};
use skills_sh::{Error, Page, Scrape, ScrapeOptions, ScrapeReport, Skill, DEFAULT_API_BASE};

fn skill(source: &str, skill_id: &str, installs: u64, weekly: &[u64]) -> Skill {
    Skill {
        source: source.to_string(),
        skill_id: skill_id.to_string(),
        name: skill_id.to_string(),
        installs,
        weekly_installs: weekly.to_vec(),
    }
}

/// Two skills on page 0, with `hasMore = true`.
fn page_0() -> Page {
    Page {
        skills: vec![
            skill(
                "vercel-labs/skills",
                "find-skills",
                2_991_984,
                &[113_781, 109_199, 109_085],
            ),
            skill("mattpocock/skills", "grill-me", 885_684, &[47_001]),
        ],
        has_more: true,
        total: Some(3),
    }
}

/// One skill on page 1, signalling the end of pagination.
fn page_1() -> Page {
    Page {
        skills: vec![skill("anthropics/skills", "frontend-design", 787_725, &[27_857])],
        has_more: false,
        total: Some(3),
    }
}

/// A server with pages 0 and 1, and an error for every other page.
fn serve(page: u64) -> Page {
    match page {
        0 => page_0(),
        1 => page_1(),
        other => panic!("page {other} must never be requested"),
    }
}

/// Drives a scrape against `server`, recording the pages requested.
fn run(opts: &ScrapeOptions, server: impl Fn(u64) -> Page) -> (ScrapeReport, Vec<u64>) {
    let mut scrape = Scrape::new(opts);
    let mut requested = Vec::new();
    while let Some(page) = scrape.next_page() {
        requested.push(page);
        let data = server(page);
        assert!(scrape.accepts(&data));
        scrape.on_page(data);
    }
    (scrape.finish(), requested)
}

fn ids(report: &ScrapeReport) -> Vec<&str> {
    report.skills.iter().map(|s| s.skill_id.as_str()).collect()
}

#[test]
fn fetch_page_rejects_bad_status() {
    let err = check_status(0, 503).unwrap_err();
    assert!(matches!(err, Error::BadStatus { page: 0, status: _ }));
    assert_eq!(err, Error::BadStatus { page: 0, status: 503 });
}

#[test]
fn scrape_follows_has_more_until_last_page() {
    let (report, requested) = run(&ScrapeOptions::default(), serve);

    assert_eq!(report.pages_fetched, 2);
    assert_eq!(report.skills.len(), 3);
    assert_eq!(ids(&report), vec!["find-skills", "grill-me", "frontend-design"]);
    assert_eq!(requested, vec![0, 1]);
}

#[test]
fn scrape_respects_max_pages() {
    // Page 1 must never be requested.
    let (report, requested) = run(
        &ScrapeOptions {
            max_pages: Some(1),
            ..ScrapeOptions::default()
        },
        |page| match page {
            0 => page_0(),
            _ => panic!("page 1 must never be requested"),
        },
    );

    assert_eq!(report.pages_fetched, 1);
    assert_eq!(report.skills.len(), 2);
    assert_eq!(requested, vec![0]);
}

#[test]
fn scrape_respects_max_skills_with_more_pages() {
    let (report, _) = run(
        &ScrapeOptions {
            max_skills: Some(2),
            ..ScrapeOptions::default()
        },
        serve,
    );

    // Page 0 already holds >= 2 skills with has_more = true.
    assert_eq!(report.pages_fetched, 1);
    assert_eq!(report.skills.len(), 2);
}

#[test]
fn scrape_truncates_on_final_page() {
    // `max_skills` must hold even when the page that overflows the limit is
    // also the last one (has_more == false).
    let (report, _) = run(
        &ScrapeOptions {
            max_skills: Some(2),
            ..ScrapeOptions::default()
        },
        serve,
    );

    assert_eq!(report.skills.len(), 2);
}

#[test]
fn scrape_options_defaults() {
    assert_eq!(
        ScrapeOptions::default(),
        ScrapeOptions {
            start_page: 0,
            max_pages: None,
            max_skills: None,
        }
    );
}

#[test]
fn truncates_inside_the_last_page_fetched() {
    // Three skills are available, the cap is reached on page 1.
    let mut first = page_0();
    first.skills.truncate(1);
    let (report, requested) = run(
        &ScrapeOptions {
            max_skills: Some(2),
            ..ScrapeOptions::default()
        },
        |page| match page {
            0 => first.clone(),
            1 => page_0(),
            _ => panic!("no page after the cap"),
        },
    );
    assert_eq!(requested, vec![0, 1]);
    assert_eq!(report.pages_fetched, 2);
    assert_eq!(ids(&report), vec!["find-skills", "find-skills"]);
}

#[test]
fn keeps_exactly_the_first_skill() {
    let (report, _) = run(
        &ScrapeOptions {
            max_skills: Some(1),
            ..ScrapeOptions::default()
        },
        serve,
    );
    assert_eq!(report.pages_fetched, 1);
    assert_eq!(ids(&report), vec!["find-skills"]);
}

#[test]
fn a_zero_skill_cap_still_fetches_one_page() {
    let (report, requested) = run(
        &ScrapeOptions {
            max_skills: Some(0),
            ..ScrapeOptions::default()
        },
        serve,
    );
    assert_eq!(requested, vec![0]);
    assert_eq!(report.pages_fetched, 1);
    assert!(report.skills.is_empty());
}

#[test]
fn a_zero_page_cap_fetches_nothing() {
    let (report, requested) = run(
        &ScrapeOptions {
            max_pages: Some(0),
            ..ScrapeOptions::default()
        },
        serve,
    );
    assert!(requested.is_empty());
    assert_eq!(report.pages_fetched, 0);
    assert!(report.skills.is_empty());
}

#[test]
fn pages_are_requested_in_sequence_from_the_start_page() {
    let (report, requested) = run(
        &ScrapeOptions {
            start_page: 7,
            max_pages: Some(3),
            max_skills: None,
        },
        |_| page_0(),
    );
    assert_eq!(requested, vec![7, 8, 9]);
    assert_eq!(report.pages_fetched, 3);
    assert_eq!(report.skills.len(), 6);
}

#[test]
fn an_empty_last_page_ends_the_scrape() {
    let (report, requested) = run(&ScrapeOptions::default(), |page| match page {
        0 => page_0(),
        1 => Page {
            skills: Vec::new(),
            has_more: false,
            total: None,
        },
        _ => panic!("no page after the last one"),
    });
    assert_eq!(requested, vec![0, 1]);
    assert_eq!(report.pages_fetched, 2);
    assert_eq!(report.skills.len(), 2);
}

#[test]
fn no_page_is_asked_for_once_the_scrape_ended() {
    let mut scrape = Scrape::new(&ScrapeOptions::default());
    assert_eq!(scrape.next_page(), Some(0));
    scrape.on_page(page_1());
    assert_eq!(scrape.next_page(), None);
    assert_eq!(scrape.next_page(), None);
}

#[test]
fn the_last_page_number_cannot_be_passed() {
    let scrape = Scrape::new(&ScrapeOptions {
        start_page: u64::MAX,
        max_pages: None,
        max_skills: None,
    });
    assert_eq!(scrape.next_page(), Some(u64::MAX));
    // Going on would need page u64::MAX + 1.
    assert!(!scrape.accepts(&page_0()));
    // A last page needs no further page number.
    assert!(scrape.accepts(&page_1()));
}

#[test]
fn success_statuses_are_the_2xx_range() {
    assert!(!is_success(199));
    assert!(is_success(200));
    assert!(is_success(204));
    assert!(is_success(299));
    assert!(!is_success(300));
    assert!(!is_success(404));
    assert_eq!(check_status(3, 200), Ok(()));
    assert_eq!(
        check_status(4, 500),
        Err(Error::BadStatus {
            page: 4,
            status: 500
        })
    );
}

#[test]
fn page_urls_append_the_page_number() {
    assert_eq!(
        page_url(DEFAULT_API_BASE, 0),
        "https://skills.sh/api/skills/all-time/0"
    );
    assert_eq!(page_url("http://127.0.0.1:8080/api", 12), "http://127.0.0.1:8080/api/12");
    assert_eq!(page_url("", 305), "/305");
}

#[test]
fn decimal_strings_match_format() {
    for n in [0u64, 7, 9, 10, 42, 100, 1_000_007, 2_991_984, u64::MAX] {
        assert_eq!(decimal_string(n), format!("{n}"));
    }
}

#[test]
fn skill_shows_source_and_name() {
    let s = skill("vercel-labs/skills", "find-skills", 1, &[]);
    assert_eq!(s.to_string(), "vercel-labs/skills/find-skills");
    let t = Skill {
        name: "Lark".to_string(),
        ..skill("open.feishu.cn", "lark", 1, &[])
    };
    assert_eq!(t.to_string(), "open.feishu.cn/Lark");
}

#[test]
fn skills_kept_only_grow_page_by_page() {
    let mut reports = Vec::new();
    for pages in 0..=2u64 {
        let (report, _) = run(
            &ScrapeOptions {
                max_pages: Some(pages),
                ..ScrapeOptions::default()
            },
            serve,
        );
        reports.push(report);
    }
    for pair in reports.windows(2) {
        let (before, after) = (&pair[0], &pair[1]);
        assert!(before.skills.len() <= after.skills.len());
        assert_eq!(before.skills[..], after.skills[..before.skills.len()]);
    }
    assert_eq!(ids(&reports[2]), vec!["find-skills", "grill-me", "frontend-design"]);
}

#[test]
fn different_pages_have_different_urls() {
    let urls: Vec<String> = [1u64, 10, 11, 100, 101, 110]
        .iter()
        .map(|&p| page_url(DEFAULT_API_BASE, p))
        .collect();
    for (i, a) in urls.iter().enumerate() {
        for b in &urls[i + 1..] {
            assert_ne!(a, b);
        }
    }
}

#[test]
fn a_last_page_past_the_skill_cap_is_cut() {
    // Page 1 says no more pages follow and brings three skills to a cap of two.
    let mut first = page_0();
    first.skills.truncate(1);
    let mut last = page_0();
    last.has_more = false;
    let (report, requested) = run(
        &ScrapeOptions {
            max_skills: Some(2),
            ..ScrapeOptions::default()
        },
        |page| match page {
            0 => first.clone(),
            1 => last.clone(),
            _ => panic!("no page after the last one"),
        },
    );
    assert_eq!(requested, vec![0, 1]);
    assert_eq!(report.pages_fetched, 2);
    assert_eq!(ids(&report), vec!["find-skills", "find-skills"]);
}

#[test]
fn the_page_cap_allows_the_last_page_number() {
    let (report, requested) = run(
        &ScrapeOptions {
            start_page: u64::MAX,
            max_pages: Some(1),
            max_skills: None,
        },
        |_| page_0(),
    );
    assert_eq!(requested, vec![u64::MAX]);
    assert_eq!(report.pages_fetched, 1);
    assert_eq!(report.skills.len(), 2);
}

#[test]
fn a_skill_cap_only_cuts_the_uncapped_run() {
    let (all, _) = run(&ScrapeOptions::default(), serve);
    for n in 0..=4usize {
        let (capped, _) = run(
            &ScrapeOptions {
                max_skills: Some(n),
                ..ScrapeOptions::default()
            },
            serve,
        );
        let keep = n.min(all.skills.len());
        assert_eq!(capped.skills[..], all.skills[..keep]);
        assert!(capped.pages_fetched <= all.pages_fetched);
    }
}

#[test]
fn one_more_page_allowed_is_at_most_one_more_page() {
    for m in 0..3u64 {
        let (r1, _) = run(
            &ScrapeOptions {
                max_pages: Some(m),
                ..ScrapeOptions::default()
            },
            serve,
        );
        let (r2, _) = run(
            &ScrapeOptions {
                max_pages: Some(m + 1),
                ..ScrapeOptions::default()
            },
            serve,
        );
        assert!(r1.pages_fetched <= r2.pages_fetched);
        assert!(r2.pages_fetched <= r1.pages_fetched + 1);
        assert_eq!(r1.skills[..], r2.skills[..r1.skills.len()]);
    }
}
