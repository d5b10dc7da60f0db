use sistema_ventas::texto::{
    caracteres, comparar, contiene_texto, filtrar_numericos, iguales_ignorando_mayusculas,
    leer_i32, leer_i64, leer_u128, leer_usize, mismo_texto, Orden,
};

fn cs(s: &str) -> Vec<char> {
    caracteres(s)
}

#[test]
fn caracteres_en_orden() {
    assert_eq!(caracteres("añb"), vec!['a', 'ñ', 'b']);
    assert_eq!(caracteres(""), Vec::<char>::new());
}

#[test]
fn lectura_de_enteros_con_signo() {
    assert_eq!(leer_i64(&cs("42")), Some(42));
    assert_eq!(leer_i64(&cs("+7")), Some(7));
    assert_eq!(leer_i64(&cs("-15")), Some(-15));
    assert_eq!(leer_i64(&cs("-0")), Some(0));
    assert_eq!(leer_i64(&cs("9223372036854775807")), Some(i64::MAX));
    assert_eq!(leer_i64(&cs("-9223372036854775808")), Some(i64::MIN));
    assert_eq!(leer_i64(&cs("9223372036854775808")), None);
    assert_eq!(leer_i64(&cs("")), None);
    assert_eq!(leer_i64(&cs("+")), None);
    assert_eq!(leer_i64(&cs("-")), None);
    assert_eq!(leer_i64(&cs(" 1")), None);
    assert_eq!(leer_i64(&cs("1a")), None);
    assert_eq!(leer_i32(&cs("2147483647")), Some(i32::MAX));
    assert_eq!(leer_i32(&cs("-2147483648")), Some(i32::MIN));
    assert_eq!(leer_i32(&cs("2147483648")), None);
}

#[test]
fn lectura_de_enteros_sin_signo() {
    assert_eq!(leer_u128(&cs("340282366920938463463374607431768211455")), Some(u128::MAX));
    assert_eq!(leer_u128(&cs("340282366920938463463374607431768211456")), None);
    assert_eq!(leer_u128(&cs("+12")), Some(12));
    assert_eq!(leer_u128(&cs("-12")), None);
    assert_eq!(leer_u128(&cs("-0")), None);
    assert_eq!(leer_usize(&cs("0012")), Some(12));
    assert_eq!(leer_usize(&cs("18446744073709551616")), None);
}

#[test]
fn lectura_coincide_con_parse() {
    for s in ["0", "17", "-17", "+17", "", "+", "-", "x", "99999999999", "-2147483649", "1 "] {
        assert_eq!(leer_i32(&cs(s)), s.parse::<i32>().ok(), "{s}");
        assert_eq!(leer_i64(&cs(s)), s.parse::<i64>().ok(), "{s}");
        assert_eq!(leer_usize(&cs(s)), s.parse::<usize>().ok(), "{s}");
        assert_eq!(leer_u128(&cs(s)), s.parse::<u128>().ok(), "{s}");
    }
}

#[test]
fn igualdad_sin_mayusculas_ascii() {
    assert!(iguales_ignorando_mayusculas("Distribuidora SUR", "distribuidora sur"));
    assert!(!iguales_ignorando_mayusculas("Ñandú", "ñandú"));
    assert!(!iguales_ignorando_mayusculas("abc", "abcd"));
    assert!(iguales_ignorando_mayusculas("", ""));
}

#[test]
fn busqueda_de_subcadenas() {
    assert!(contiene_texto(&cs("coca cola"), &cs("a co")));
    assert!(contiene_texto(&cs("coca cola"), &cs("")));
    assert!(!contiene_texto(&cs("coca"), &cs("cola")));
    assert!(!contiene_texto(&cs("co"), &cs("coca")));
}

#[test]
fn orden_de_textos() {
    assert!(matches!(comparar(&cs("abc"), &cs("abd")), Orden::Antes));
    assert!(matches!(comparar(&cs("ab"), &cs("abc")), Orden::Antes));
    assert!(matches!(comparar(&cs("b"), &cs("abc")), Orden::Despues));
    assert!(matches!(comparar(&cs("Z"), &cs("a")), Orden::Antes));
    assert!(matches!(comparar(&cs("á"), &cs("b")), Orden::Despues));
    assert!(matches!(comparar(&cs("x"), &cs("x")), Orden::Igual));
    assert!(mismo_texto(&cs("Un"), &cs("Un")));
    assert!(!mismo_texto(&cs("Un"), &cs("un")));
}

#[test]
fn caracteres_numericos() {
    assert_eq!(filtrar_numericos(&cs("+54 (11) 4555-1234")), cs("541145551234"));
    assert_eq!(filtrar_numericos(&cs("tel: ٣½")), vec!['٣', '½']);
    assert_eq!(filtrar_numericos(&cs("sin numero")), Vec::<char>::new());
}
