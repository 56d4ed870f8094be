use remux_library::calendar::Date;
use remux_library::language::{first_found, lang_three_letter};
use remux_library::remote_search::{
    remote_search_apply, remote_search_movie, remote_search_series, search_result, search_results,
    stub_search, ApiError, ExternalIds, NonEmptyString, ProviderEntry, ProviderIds, SearchInfo,
    NO_CONTENT,
};
use remux_library::subtitles::{
    count_in_language, download_remote_subtitle, format_of_extension, found_subtitle,
    found_subtitles, search_remote_subtitles, subtitle_format_from_url, SubtitleSearchQuery, SubtitleSource, SUBTITLE_TTL_SECS,
};

fn info(name: &str, year: Option<i64>) -> Option<SearchInfo> {
    Some(SearchInfo { name: Some(name.to_string()), year })
}

fn provider_ids(pairs: &[(&str, &str)]) -> ProviderIds {
    let mut ids = ProviderIds::new();
    for (provider, id) in pairs {
        ids.insert(provider.to_string(), id.to_string());
    }
    ids
}

fn no_ids() -> ExternalIds {
    ExternalIds { tmdb: None, imdb: None, tvdb: None }
}

fn entry(id: i64, date: Option<Date>, poster: Option<&str>) -> ProviderEntry {
    ProviderEntry {
        id,
        title: "Inception".to_string(),
        date,
        poster_path: poster.map(|p| p.to_string()),
    }
}

fn source(id: &str, lang: Option<&str>, two: Option<&str>, hint: &str) -> SubtitleSource {
    SubtitleSource {
        id: id.to_string(),
        lang: lang.map(|l| l.to_string()),
        lang_two: two.map(|l| l.to_string()),
        url: format!("https://host/{id}"),
        path_hint: hint.to_string(),
    }
}

#[test]
fn movie_search_needs_a_provider_and_a_name() {
    let search = remote_search_movie(info("Inception", Some(2010)), true).unwrap();
    assert_eq!(search.query, "Inception");
    assert_eq!(search.year, Some(2010));
    assert!(remote_search_movie(info("Inception", None), false).is_none());
    assert!(remote_search_movie(info("", Some(2010)), true).is_none());
    assert!(remote_search_movie(None, true).is_none());
    let nameless = Some(SearchInfo { name: None, year: Some(2010) });
    assert!(remote_search_movie(nameless, true).is_none());
}

#[test]
fn series_search_goes_by_name_alone() {
    let search = remote_search_series(info("Breaking Bad", Some(2008)), true).unwrap();
    assert_eq!(search.query, "Breaking Bad");
    assert_eq!(search.year, None);
    assert!(remote_search_series(info("", None), true).is_none());
    assert!(remote_search_series(info("Breaking Bad", None), false).is_none());
}

#[test]
fn test_remote_search_stub_routes_return_empty() {
    assert!(stub_search().is_empty());
}

#[test]
fn results_show_what_the_provider_found() {
    let date = Some(Date { year: 2010, month: 7, day: 16 });
    let r = search_result(&entry(27205, date, Some("/p.jpg")));
    assert_eq!(r.name.as_deref(), Some("Inception"));
    assert_eq!(r.production_year, Some(2010));
    assert_eq!(r.image_url.as_deref(), Some("https://image.tmdb.org/t/p/w500/p.jpg"));
    assert_eq!(r.search_provider_name.as_deref(), Some("TheMovieDb"));
    assert_eq!(r.provider_ids.get("Tmdb"), Some("27205"));
    assert_eq!(r.provider_ids.get("Imdb"), None);
    assert_eq!(r.premiere_date.as_deref(), Some("2010-07-16T00:00:00+00:00"));

    let r = search_result(&entry(-1, None, None));
    assert_eq!(r.production_year, None);
    assert_eq!(r.image_url, None);
    assert_eq!(r.provider_ids.get("Tmdb"), Some("-1"));
    assert_eq!(r.premiere_date, None);

    let both = search_results(&vec![entry(1, None, None), entry(2, date, None)]);
    assert_eq!(both.len(), 2);
    assert_eq!(both[1].provider_ids.get("Tmdb"), Some("2"));
}

#[test]
fn dates_are_written_as_the_calendar_has_them() {
    let written = |year: i32, month: u32, day: u32| {
        search_result(&entry(1, Some(Date { year, month, day }), None)).premiere_date
    };
    assert_eq!(written(987, 1, 2).as_deref(), Some("0987-01-02T00:00:00+00:00"));
    assert_eq!(written(12345, 12, 31).as_deref(), Some("+12345-12-31T00:00:00+00:00"));
    assert_eq!(written(-5, 2, 28).as_deref(), Some("-0005-02-28T00:00:00+00:00"));
    assert_eq!(written(2024, 2, 29).as_deref(), Some("2024-02-29T00:00:00+00:00"));
    assert_eq!(written(2000, 2, 29).as_deref(), Some("2000-02-29T00:00:00+00:00"));
    assert_eq!(written(1900, 2, 29), None);
    assert_eq!(written(2023, 2, 29), None);
    assert_eq!(written(2023, 4, 31), None);
    assert_eq!(written(2023, 13, 1), None);
    assert_eq!(written(2023, 0, 1), None);
    assert_eq!(written(2023, 1, 0), None);
    assert_eq!(written(262142, 1, 1).as_deref(), Some("+262142-01-01T00:00:00+00:00"));
    assert_eq!(written(262143, 1, 1), None);
    assert_eq!(written(-262143, 1, 1).as_deref(), Some("-262143-01-01T00:00:00+00:00"));
    assert_eq!(written(-262144, 1, 1), None);
}

#[test]
fn test_remote_search_apply_not_found_returns_404() {
    let ids = Some(provider_ids(&[("Tmdb", "27205")]));
    match remote_search_apply(None, &ids) {
        Err(e) => {
            assert_eq!(e, ApiError::ItemNotFound);
            assert_eq!(e.status(), 404);
            assert_eq!(e.message(), "item not found");
        }
        Ok(_) => panic!("there is no such item"),
    }
}

#[test]
fn test_remote_search_apply_updates_external_ids() {
    let ids = Some(provider_ids(&[("Tmdb", "27205"), ("Imdb", "tt1375666")]));
    match remote_search_apply(Some(no_ids()), &ids) {
        Ok(updated) => {
            assert_eq!(updated.tmdb, Some(27205));
            assert_eq!(updated.imdb.as_ref().map(|s| s.as_str()), Some("tt1375666"));
            assert_eq!(updated.tvdb, None);
        }
        Err(_) => panic!("the item exists"),
    }
    assert_eq!(NO_CONTENT, 204);
}

#[test]
fn apply_keeps_what_the_result_does_not_name() {
    let was = || ExternalIds {
        tmdb: Some(1),
        imdb: NonEmptyString::try_new("tt1"),
        tvdb: Some(3),
    };
    let kept = remote_search_apply(Some(was()), &None).ok().unwrap();
    assert_eq!((kept.tmdb, kept.tvdb), (Some(1), Some(3)));
    assert_eq!(kept.imdb.unwrap().as_str(), "tt1");
    let ids = Some(provider_ids(&[("Tmdb", "not a number"), ("Tvdb", "+9"), ("Imdb", "")]));
    let updated = remote_search_apply(Some(was()), &ids).ok().unwrap();
    assert_eq!(updated.tmdb, Some(1));
    assert_eq!(updated.tvdb, Some(9));
    assert!(updated.imdb.is_none());
    let ids = Some(provider_ids(&[("Tmdb", "9223372036854775808"), ("Tvdb", "-9223372036854775808")]));
    let updated = remote_search_apply(Some(was()), &ids).ok().unwrap();
    assert_eq!(updated.tmdb, Some(1));
    assert_eq!(updated.tvdb, Some(i64::MIN));
    assert_eq!(updated.imdb.unwrap().as_str(), "tt1");
}

#[test]
fn applied_result_carries_the_id() {
    for id in [0, 27205, -3, i64::MAX, i64::MIN] {
        let found = search_result(&entry(id, None, None));
        let updated = remote_search_apply(Some(no_ids()), &Some(found.provider_ids)).ok().unwrap();
        assert_eq!(updated.tmdb, Some(id));
    }
}

#[test]
fn failures_have_a_status_and_a_message() {
    assert_eq!(ApiError::SaveFailed.status(), 500);
    assert_eq!(ApiError::SaveFailed.message(), "failed to save item");
    assert_eq!(ApiError::RefreshFailed.status(), 500);
    assert_eq!(ApiError::RefreshFailed.message(), "metadata refresh failed");
}

#[test]
fn later_ids_replace_earlier_ones() {
    let ids = provider_ids(&[("Tmdb", "1"), ("Imdb", "tt1"), ("Tmdb", "2")]);
    assert_eq!(ids.get("Tmdb"), Some("2"));
    assert_eq!(ids.get("Imdb"), Some("tt1"));
    assert_eq!(ids.get("tmdb"), None);
}

#[test]
fn languages_have_three_letter_codes() {
    assert_eq!(lang_three_letter("en").as_deref(), Some("eng"));
    assert_eq!(lang_three_letter(" EN\t").as_deref(), Some("eng"));
    assert_eq!(lang_three_letter("deu").as_deref(), Some("deu"));
    assert_eq!(lang_three_letter("DEU").as_deref(), Some("deu"));
    assert_eq!(lang_three_letter("pt").as_deref(), Some("por"));
    assert_eq!(lang_three_letter(""), None);
    assert_eq!(lang_three_letter("e"), None);
    assert_eq!(lang_three_letter("xx"), None);
    let code = |c: &str| Some(c.to_string());
    assert_eq!(first_found(code("eng"), code("deu"), code("fra")).as_deref(), Some("eng"));
    assert_eq!(first_found(None, code("deu"), code("fra")).as_deref(), Some("deu"));
    assert_eq!(first_found(None, None, code("fra")).as_deref(), Some("fra"));
    assert_eq!(first_found(None, None, None), None);
}

#[test]
fn found_codes_stand_for_themselves() {
    for lang in ["en", "EN", " De ", "por", "FRA", "zh"] {
        let code = lang_three_letter(lang).unwrap();
        assert_eq!(code.len(), 3);
        assert_eq!(lang_three_letter(&code), Some(code.clone()));
        assert_eq!(lang_three_letter(&lang.trim().to_lowercase()), Some(code));
    }
    assert_eq!(lang_three_letter("  \t\n"), None);
    for name in ["Espa\u{f1}ol", "\u{3a3}\u{3a3}", "d\u{130}", "e\u{3a3}", "\u{e9}"] {
        assert_eq!(lang_three_letter(name), None);
        assert_eq!(lang_three_letter(&name.to_ascii_uppercase()), None);
        assert_eq!(lang_three_letter(&name.trim().to_lowercase()), None);
    }
    // The Kelvin sign is a small k in lower case.
    assert_eq!(lang_three_letter("\u{212a}O").as_deref(), Some("kor"));
    assert_eq!(lang_three_letter("\u{212a}o").as_deref(), Some("kor"));
}

#[test]
fn case_of_an_address_plays_no_part() {
    for url in [
        "https://host/a.srt",
        "https://host/a.Vtt",
        "x.ass",
        "SSA",
        "x.sub",
        "x.txt",
        "",
        "x.\u{17f}rt",
        "\u{3a3}.srt",
        "x.s\u{3a3}",
        "x.a\u{df}",
    ] {
        let format = subtitle_format_from_url(url);
        assert_eq!(subtitle_format_from_url(&url.to_ascii_uppercase()), format);
        assert_eq!(subtitle_format_from_url(&url.to_ascii_lowercase()), format);
        if let Some(name) = format {
            assert!(["SRT", "VTT", "ASS", "SSA", "SUB"].contains(&name.as_str()));
        }
    }
}

#[test]
fn formats_are_read_from_the_extension() {
    assert_eq!(subtitle_format_from_url("https://host/a.srt").as_deref(), Some("SRT"));
    assert_eq!(subtitle_format_from_url("https://host/a.b.VtT").as_deref(), Some("VTT"));
    assert_eq!(subtitle_format_from_url("ass").as_deref(), Some("ASS"));
    assert_eq!(subtitle_format_from_url(".ssa").as_deref(), Some("SSA"));
    assert_eq!(subtitle_format_from_url("x.sub").as_deref(), Some("SUB"));
    assert_eq!(subtitle_format_from_url("x.sub?y"), None);
    assert_eq!(subtitle_format_from_url("x.srt."), None);
    assert_eq!(subtitle_format_from_url("x.txt"), None);
    assert_eq!(subtitle_format_from_url(""), None);
    assert_eq!(format_of_extension("srt").as_deref(), Some("SRT"));
    assert_eq!(format_of_extension("SRT"), None);
}

#[test]
fn test_subtitle_search_item_not_found() {
    match search_remote_subtitles(&None, "en", Some("en".to_string())) {
        Err(e) => assert_eq!(e.status(), 404),
        Ok(_) => panic!("there is no such item"),
    }
}

#[test]
fn test_subtitle_search_no_addons_returns_empty() {
    let found = search_remote_subtitles(&Some(vec![]), "en", Some("en".to_string())).ok().unwrap();
    assert!(found.is_empty(), "no addons configured: nothing is found");
}

#[test]
fn subtitles_are_found_by_language() {
    let offered = Some(vec![
        source("a", Some("eng"), Some("en"), "x.srt"),
        source("b", Some("deu"), Some("de"), "x.srt"),
        source("c", Some("English"), Some("EN"), "x.txt"),
        source("d", None, None, "x.srt"),
    ]);
    let found = search_remote_subtitles(&offered, "eng", Some("en".to_string())).ok().unwrap();
    assert_eq!(found.len(), 2);
    assert_eq!(found[0].info.name.as_deref(), Some("a"));
    assert_eq!(found[0].info.provider_name.as_deref(), Some("Stremio"));
    assert_eq!(found[0].info.three_letter_iso_language_name.as_deref(), Some("eng"));
    assert_eq!(found[0].info.format.as_deref(), Some("SRT"));
    assert_eq!(found[0].info.is_hash_match, Some(false));
    assert_eq!(found[0].info.ai_translated, Some(false));
    assert_eq!(found[0].info.machine_translated, Some(false));
    assert_eq!(found[0].url, "https://host/a");
    assert_eq!(found[1].info.name.as_deref(), Some("c"));
    assert_eq!(found[1].info.format, None);
    assert_ne!(found[0].info.id, found[1].info.id);
    let id = uuid::Uuid::parse_str(&found[0].info.id).unwrap();
    assert_eq!(id.get_version_num(), 4);
    assert_eq!(id.to_string(), found[0].info.id);
    assert_eq!(SUBTITLE_TTL_SECS, 3600);
}

#[test]
fn unknown_languages_are_matched_by_name() {
    let offered = Some(vec![source("a", Some("x"), Some("klingon"), "x.srt")]);
    let found = search_remote_subtitles(&offered, "KLINGON", None).ok().unwrap();
    assert_eq!(found.len(), 1);
    let found = search_remote_subtitles(&offered, "en", None).ok().unwrap();
    assert!(found.is_empty());
}

#[test]
fn download_looks_where_search_kept() {
    let offered = Some(vec![source("a", Some("en"), Some("en"), "x.srt")]);
    let found = search_remote_subtitles(&offered, "en", Some("en".to_string())).ok().unwrap();
    assert_eq!(download_remote_subtitle(&found[0].info.id), found[0].key);
    assert_eq!(download_remote_subtitle("x"), "subtitle:x");
    let id = 0x0123_4567_89ab_cdef_0123_4567_89ab_cdefu128;
    let one = found_subtitle(&source("a", None, None, "x"), id);
    assert_eq!(one.info.id, "01234567-89ab-cdef-0123-456789abcdef");
    assert_eq!(one.key, "subtitle:01234567-89ab-cdef-0123-456789abcdef");
    assert_eq!(one.info.three_letter_iso_language_name, None);
}

#[test]
fn different_ids_keep_subtitles_apart() {
    let subs = vec![
        source("a", Some("en"), Some("en"), "x.srt"),
        source("b", Some("de"), Some("de"), "x.srt"),
        source("c", Some("en"), Some("EN"), "x.vtt"),
    ];
    assert_eq!(count_in_language(&subs, "en"), 2);
    assert_eq!(count_in_language(&subs, "fr"), 0);
    let found = found_subtitles(&subs, "en", &vec![1, 16]);
    assert_eq!(found.len(), 2);
    assert_eq!(found[0].key, "subtitle:00000000-0000-0000-0000-000000000001");
    assert_eq!(found[0].url, "https://host/a");
    assert_eq!(found[1].key, "subtitle:00000000-0000-0000-0000-000000000010");
    assert_eq!(found[1].url, "https://host/c");
    assert_ne!(found[0].key, found[1].key);
    assert!(found_subtitles(&subs, "fr", &vec![]).is_empty());
}

#[test]
fn subtitle_queries_default_to_nothing() {
    assert_eq!(SubtitleSearchQuery::default().is_perfect_match, None);
}

#[test]
fn test_subtitle_download_returns_204() {
    let subtitle_id = uuid::Uuid::new_v4().to_string();
    assert_eq!(download_remote_subtitle(&subtitle_id), format!("subtitle:{subtitle_id}"));
    assert_eq!(NO_CONTENT, 204);
}
