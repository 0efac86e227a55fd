//! Tests around the market-facing pieces: URL formation, summary
//! formatting, trend and volatility arithmetic, and the item type.

use tradergrader::MarketType;

// Mock test for URL formation
#[test]
fn test_url_formation() {
    let region_id = 10000002;
    let type_id = Some(34);

    let base_url = format!("https://esi.evetech.net/latest/markets/{region_id}/orders/");
    assert!(base_url.contains("10000002"));

    if let Some(tid) = type_id {
        let full_url = format!("{base_url}?type_id={tid}");
        assert!(full_url.contains("type_id=34"));
    }
}

#[test]
fn test_price_trend_calculation() {
    // Test trend determination logic
    let week_change = 5.0;
    let day_change = 2.0;

    let trend = if week_change > 2.0 && day_change > 0.0 {
        "bullish"
    } else if week_change < -2.0 && day_change < 0.0 {
        "bearish"
    } else {
        "sideways"
    };

    assert_eq!(trend, "bullish");
}

#[test]
fn test_market_summary_format() {
    // Test summary format strings
    let region_id = 10000002;
    let type_id = 34;
    let best_buy = 95.50;
    let best_sell = 96.75;
    let spread = best_sell - best_buy;

    let summary = format!(
        "Market Summary for Type {} in Region {}:\n\
        Best Buy Order: {:.2} ISK\n\
        Best Sell Order: {:.2} ISK\n\
        Spread: {:.2} ISK ({:.2}%)",
        type_id,
        region_id,
        best_buy,
        best_sell,
        spread,
        (spread / best_buy) * 100.0
    );

    assert!(summary.contains("Market Summary"));
    assert!(summary.contains("95.50"));
    assert!(summary.contains("96.75"));
}

#[test]
fn test_volatility_calculation() {
    let prices = vec![100.0, 105.0, 95.0, 102.0, 98.0];
    let mean = prices.iter().sum::<f64>() / prices.len() as f64;

    let variance = prices
        .iter()
        .map(|price| (price - mean).powi(2))
        .sum::<f64>()
        / prices.len() as f64;

    let volatility = variance.sqrt();

    assert!(volatility > 0.0);
    assert!(mean > 90.0 && mean < 110.0);
}

#[test]
fn test_market_type_validation() {
    let market_type = MarketType {
        type_id: 34,
        name: "Tritanium".to_string(),
        description: Some("The most common type of asteroid ore.".to_string()),
    };

    assert_eq!(market_type.type_id, 34);
    assert_eq!(market_type.name, "Tritanium");
    assert!(market_type.description.is_some());
}
