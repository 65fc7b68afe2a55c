use rtoolkit::areas::{
    get_cities_by_province, get_full_area_info, get_full_area_info_str, get_region_name,
    get_regions_by_city, init_region_cache, random_area, random_city, random_province,
    random_region_full, RegionCache, RegionError,
};

const PROVINCES: &str = "code,name\n11,Beijing\n12,Tianjin\n";
const CITIES: &str = "code,name,provinceCode\n1101,BeijingCity,11\n1201,TianjinCity,12\n";
const AREAS: &str = "code,name,cityCode,provinceCode\n110101,Dongcheng,1101,11\n110102,Xicheng,1101,11\n120101,Heping,1201,12\n";

const EMPTY_PROVINCES: &str = "code,name\n";
const EMPTY_CITIES: &str = "code,name,provinceCode\n";
const EMPTY_AREAS: &str = "code,name,cityCode,provinceCode\n";

fn load() -> RegionCache {
    init_region_cache(PROVINCES, CITIES, AREAS).unwrap()
}

fn load_empty() -> RegionCache {
    RegionCache::new(EMPTY_PROVINCES, EMPTY_CITIES, EMPTY_AREAS).unwrap()
}

#[test]
fn test_cache_loads_tables() {
    let cache = load();
    assert_eq!(cache.get_provinces().len(), 2);
    assert_eq!(cache.get_cities().len(), 2);
    assert_eq!(cache.get_areas().len(), 3);
    assert_eq!(cache.get_provinces()[0].code, "11");
    assert_eq!(cache.get_provinces()[0].name, "Beijing");
    assert_eq!(cache.get_cities()[1].province_code, "12");
    assert_eq!(cache.get_areas()[2].city_code, "1201");
}

#[test]
fn test_code_lookups() {
    let cache = load();
    assert_eq!(cache.get_province("12").unwrap().name, "Tianjin");
    assert_eq!(cache.get_city("1101").unwrap().name, "BeijingCity");
    assert_eq!(cache.get_region("110102").unwrap().name, "Xicheng");
    assert!(cache.get_province("99").is_none());
    assert!(cache.get_city("9999").is_none());
    assert!(cache.get_region("999999").is_none());
}

#[test]
fn test_grouped_listings() {
    let cache = load();
    let cities = cache.get_cities_by_province("11");
    assert_eq!(cities.len(), 1);
    assert_eq!(cities[0].code, "1101");
    let regions = cache.get_regions_by_city("1101");
    assert_eq!(regions.len(), 2);
    assert_eq!(regions[0].code, "110101");
    assert_eq!(regions[1].code, "110102");
    let regions = cache.get_regions_by_province("12");
    assert_eq!(regions.len(), 1);
    assert_eq!(regions[0].name, "Heping");
    assert!(cache.get_cities_by_province("99").is_empty());
}

#[test]
fn test_full_chain() {
    let cache = load();
    let (p, c, a) = cache.get_full_area_chain("120101").unwrap();
    assert_eq!(p.name, "Tianjin");
    assert_eq!(c.name, "TianjinCity");
    assert_eq!(a.name, "Heping");
    assert!(cache.get_full_area_chain("999999").is_none());
}

#[test]
fn test_random_picks_come_from_tables() {
    let cache = load();
    for _ in 0..20 {
        let p = cache.random_province().unwrap();
        assert!(p.code == "11" || p.code == "12");
        let c = cache.random_city().unwrap();
        assert!(c.code == "1101" || c.code == "1201");
        let a = cache.random_region().unwrap();
        assert!(a.code.starts_with("11") || a.code.starts_with("12"));
        let c = cache.random_city_in_province("11").unwrap();
        assert_eq!(c.code, "1101");
        let r = cache.random_region_in_city("1101").unwrap();
        assert!(r.code == "110101" || r.code == "110102");
        let r = cache.random_region_in_province("12").unwrap();
        assert_eq!(r.code, "120101");
    }
    assert!(cache.random_city_in_province("99").is_none());
    assert!(cache.random_region_in_city("9999").is_none());
    assert!(cache.random_region_in_province("99").is_none());
}

#[test]
fn test_free_functions() {
    let cache = load();
    let code = random_area(&cache);
    assert!(cache.get_region(&code).is_some());
    assert!(random_province(&cache).is_some());
    assert!(random_city(&cache).is_some());
    let full = random_region_full(&cache);
    assert!(cache.get_region(&full.code).is_some());
    assert_eq!(get_region_name(&cache, "110101").unwrap(), "Dongcheng");
    assert!(get_region_name(&cache, "000000").is_none());
    assert_eq!(rtoolkit::areas::region_count(&cache), 3);
    let (p, c, a) = get_full_area_info(&cache, "110102").unwrap();
    assert_eq!(p.name, "Beijing");
    assert_eq!(c.name, "BeijingCity");
    assert_eq!(a.name, "Xicheng");
    assert_eq!(
        get_full_area_info_str(&cache, "110101").unwrap(),
        "BeijingBeijingCityDongcheng"
    );
    assert!(get_full_area_info_str(&cache, "999999").is_none());
    assert_eq!(get_cities_by_province(&cache, "12").len(), 1);
    assert_eq!(get_regions_by_city(&cache, "1101").len(), 2);
}

#[test]
fn test_empty_tables_fall_back() {
    let cache = load_empty();
    assert_eq!(rtoolkit::areas::region_count(&cache), 0);
    assert!(cache.random_province().is_none());
    assert!(random_city(&cache).is_none());
    assert_eq!(random_area(&cache), "110101");
    let full = random_region_full(&cache);
    assert_eq!(full.code, "110101");
    assert_eq!(full.city_code, "1101");
    assert_eq!(full.province_code, "11");
}

#[test]
fn test_wrong_field_count_reported() {
    match RegionCache::new(CITIES, CITIES, AREAS) {
        Err(RegionError::BadRecord(k)) => assert_eq!(k, 0),
        other => panic!("expected BadRecord, got {:?}", other),
    }
}

#[test]
fn test_ragged_csv_reported() {
    let ragged = "code,name\n11,Beijing\n12\n";
    match RegionCache::new(ragged, CITIES, AREAS) {
        Err(RegionError::Csv(_)) => {},
        other => panic!("expected Csv error, got {:?}", other),
    }
}
