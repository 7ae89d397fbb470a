use linreg::errors::ValidationError;
use linreg::metrics::mean_squared_error;
use linreg::metrics::r_squared;
use linreg::prediction::predict;
use linreg::ratio::Ratio;
use linreg::regression::estimate;

fn ratio(num: i128, den: i128) -> Ratio {
    Ratio { num, den }
}

#[test]
fn test_calcular_coeficientes_valores_basicos() {
    let x = vec![1i64, 2, 3, 4];
    let y = vec![2i64, 4, 6, 8];
    let result = estimate(&x, &y);
    assert!(result.is_ok());
    let (slope, intercept) = result.unwrap();
    // slope is exactly 2 and intercept exactly 0
    assert_ne!(slope.den, 0);
    assert_eq!(slope.num, 2 * slope.den);
    assert_ne!(intercept.den, 0);
    assert_eq!(intercept.num, 0);
}

#[test]
fn test_calcular_coeficientes_vetores_vazios() {
    let x: Vec<i64> = Vec::new();
    let y: Vec<i64> = Vec::new();
    let result = estimate(&x, &y);
    assert!(result.is_err());
    assert_eq!(result.unwrap_err(), ValidationError::EmptyInput);
}

#[test]
fn test_calcular_coeficientes_tamanhos_diferentes() {
    let x = vec![1i64, 2];
    let y = vec![3i64];
    let result = estimate(&x, &y);
    assert!(result.is_err());
    assert_eq!(result.unwrap_err(), ValidationError::LengthMismatch);
}

#[test]
fn test_calcular_r2() {
    let x = vec![1i64, 2, 3];
    let y = vec![2i64, 4, 6];
    let result = r_squared(&x, &y, ratio(2, 1), ratio(0, 1));
    assert!(result.is_ok());
    let r2 = result.unwrap();
    // R-squared is exactly 1
    assert_ne!(r2.den, 0);
    assert_eq!(r2.num, r2.den);
}

#[test]
fn test_calcular_mse() {
    let x = vec![1i64, 2, 3];
    let y = vec![2i64, 4, 6];
    let result = mean_squared_error(&x, &y, ratio(2, 1), ratio(0, 1));
    assert!(result.is_ok());
    let mse = result.unwrap();
    // MSE is exactly 0
    assert_ne!(mse.den, 0);
    assert_eq!(mse.num, 0);
}

#[test]
fn test_prever_valores() {
    let x = vec![1i64, 2, 3];
    let result = predict(&x, ratio(2, 1), ratio(0, 1));
    assert!(result.is_ok());
    let out = result.unwrap();
    assert_eq!(out, vec![ratio(2, 1), ratio(4, 1), ratio(6, 1)]);
}

#[test]
fn test_prever_valores_vetor_vazio() {
    let x: Vec<i64> = Vec::new();
    let result = predict(&x, ratio(2, 1), ratio(0, 1));
    assert!(result.is_err());
}
