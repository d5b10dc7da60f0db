use sistema_ventas::codigos::{codigos_desde_formulario, CodigosProveedores};

fn como_lista(c: &CodigosProveedores) -> Vec<(String, Option<u128>)> {
    let mut v = c.entradas().clone();
    v.sort();
    v
}

fn textos(v: &[&str]) -> Vec<String> {
    v.iter().map(|s| s.to_string()).collect()
}

#[test]
fn insertar_reemplaza_el_codigo_del_mismo_nombre() {
    let mut c = CodigosProveedores::new();
    c.insertar("Arcor".to_string(), Some(10));
    c.insertar("Bagley".to_string(), None);
    c.insertar("Arcor".to_string(), Some(20));
    assert_eq!(
        como_lista(&c),
        vec![("Arcor".to_string(), Some(20)), ("Bagley".to_string(), None)]
    );
}

#[test]
fn copia_conserva_el_mapa() {
    let mut c = CodigosProveedores::default();
    c.insertar("Arcor".to_string(), Some(1));
    let d = c.clone();
    assert_eq!(como_lista(&c), como_lista(&d));
}

#[test]
fn formulario_omite_la_ultima_posicion() {
    let proveedores = textos(&["Arcor", "Bagley", "Coca"]);
    let codigos = textos(&["123", "", "999"]);
    let c = codigos_desde_formulario(&proveedores, &codigos);
    assert_eq!(
        como_lista(&c),
        vec![("Arcor".to_string(), Some(123)), ("Bagley".to_string(), None)]
    );
}

#[test]
fn formulario_con_un_solo_campo_da_mapa_vacio() {
    let c = codigos_desde_formulario(&Vec::new(), &textos(&["5"]));
    assert!(c.entradas().is_empty());
}

#[test]
fn formulario_con_nombre_repetido_queda_con_el_ultimo() {
    let proveedores = textos(&["Arcor", "Arcor", "x"]);
    let codigos = textos(&["1", "+2", ""]);
    let c = codigos_desde_formulario(&proveedores, &codigos);
    assert_eq!(como_lista(&c), vec![("Arcor".to_string(), Some(2))]);
}
