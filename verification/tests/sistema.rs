use sistema_ventas::catalogo::{
    Config, Pesable, Producto, Proveedor, RelacionProdProv, Rubro, Valuable, Venta,
};
use sistema_ventas::numero::Decimal;
use sistema_ventas::sistema::{
    Sistema, RUTA_CONFIGS, RUTA_PRODUCTOS, RUTA_PROVEEDORES, RUTA_RELACIONES,
};

fn prod(id: i64, tipo: &str, marca: &str) -> Producto {
    Producto { id, tipo_producto: tipo.to_string(), marca: marca.to_string() }
}

fn prov(id: i64, nombre: &str) -> Proveedor {
    Proveedor::new(id, nombre.to_string(), None)
}

fn textos(v: &[&str]) -> Vec<String> {
    v.iter().map(|s| s.to_string()).collect()
}

fn ids(v: &[Valuable]) -> Vec<i64> {
    v.iter().map(|x| x.id()).collect()
}

fn sistema_de_prueba() -> Sistema {
    Sistema::new(
        vec![
            prod(1, "Gaseosa", "Coca Cola"),
            prod(2, "Galletitas", "Bagley"),
            prod(3, "gaseosa light", "coca cola"),
            prod(4, "Alfajor", "Arcor"),
            prod(5, "Gaseosa", "Coca Cola"),
        ],
        vec![Pesable { id: 6 }],
        vec![Rubro { id: 7 }, Rubro { id: 2 }],
        vec![prov(0, "Distribuidora Sur"), prov(1, "Arcor")],
        Vec::new(),
        Vec::new(),
    )
}

fn venta_con(id: i64) -> Venta {
    let mut v = Venta::new();
    v.productos.push(Valuable::Rub((1, Rubro { id })));
    v
}

fn ids_de_venta(v: &Venta) -> Vec<i64> {
    ids(&v.productos)
}

#[test]
fn catalogo_inicial_en_orden() {
    let s = sistema_de_prueba();
    assert_eq!(ids(s.get_productos()), vec![1, 2, 3, 4, 5, 6, 7, 2]);
    assert!(matches!(s.get_productos()[0], Valuable::Prod((0, _))));
    assert!(matches!(s.get_productos()[5], Valuable::Pes((Decimal { bits: 0 }, _))));
    assert!(matches!(s.get_productos()[6], Valuable::Rub((0, _))));
    assert_eq!(ids(&s.get_productos_cloned()), vec![1, 2, 3, 4, 5, 6, 7, 2]);
    assert_eq!(s.get_configs().politica_redondeo.bits, 0);
    assert!(s.get_stash().is_empty());
    assert!(s.get_venta(0).productos.is_empty() && s.get_venta(1).productos.is_empty());
}

#[test]
fn configuracion_guardada_y_reemplazada() {
    let c = Config { politica_redondeo: Decimal { bits: 99 } };
    let mut s = Sistema::new(Vec::new(), Vec::new(), Vec::new(), Vec::new(), Vec::new(), vec![c, Config::default()]);
    assert_eq!(s.get_configs().politica_redondeo.bits, 99);
    s.set_configs(Config { politica_redondeo: Decimal { bits: 5 } });
    assert_eq!(s.get_configs().politica_redondeo.bits, 5);
}

#[test]
fn busqueda_por_id_da_el_ultimo() {
    let s = sistema_de_prueba();
    assert!(matches!(s.get_producto(2), Ok(Valuable::Rub((0, Rubro { id: 2 })))));
    assert!(matches!(s.get_producto(4), Ok(Valuable::Prod((0, ref p))) if p.marca == "Arcor"));
    match s.get_producto(40) {
        Err(e) => assert_eq!(e, "Producto no encontrado"),
        Ok(_) => panic!("no debia hallarse"),
    }
}

#[test]
fn filtro_por_marca_ordenado_y_sin_repetir() {
    let s = sistema_de_prueba();
    assert_eq!(s.filtrar_marca("COCA"), textos(&["Coca Cola", "coca cola"]));
    assert_eq!(s.filtrar_marca(""), textos(&["Arcor", "Bagley", "Coca Cola", "coca cola"]));
    assert_eq!(s.filtrar_marca("ar"), textos(&["Arcor"]));
    assert!(s.filtrar_marca("pepsi").is_empty());
}

#[test]
fn filtro_por_tipo_de_producto() {
    let s = sistema_de_prueba();
    assert_eq!(s.filtrar_tipo_producto("GASEOSA"), textos(&["Gaseosa", "gaseosa light"]));
    assert_eq!(s.filtrar_tipo_producto("ALL"), textos(&["Galletitas"]));
}

#[test]
fn proveedor_presente_sin_importar_mayusculas() {
    let s = sistema_de_prueba();
    assert!(s.proveedor_esta("ARCOR"));
    assert!(s.proveedor_esta("distribuidora sur"));
    assert!(!s.proveedor_esta("Arcor SA"));
}

#[test]
fn alta_de_proveedor() {
    let mut s = sistema_de_prueba();
    match s.nuevo_proveedor("arcor", "") {
        Err(e) => assert_eq!(e, "Proveedor existente"),
        Ok(_) => panic!("debia rechazarse"),
    }
    match s.nuevo_proveedor("Mayorista", "sin telefono") {
        Err(e) => assert_eq!(e, "Error al convertir el numero"),
        Ok(_) => panic!("debia rechazarse"),
    }
    let p = s.nuevo_proveedor("Mayorista", "+54 (11) 4555-1234").unwrap();
    assert_eq!(p.id, 2);
    assert_eq!(p.nombre, "Mayorista");
    assert_eq!(p.contacto, Some(541145551234));
    let q = s.nuevo_proveedor("Otro", "").unwrap();
    assert_eq!(q.contacto, None);
    s.agregar_proveedor(p);
    assert_eq!(s.get_proveedores().len(), 3);
    assert!(s.proveedor_esta("MAYORISTA"));
    assert!(s.nuevo_proveedor("mayorista", "1").is_err());
}

#[test]
fn alta_de_producto_con_relaciones() {
    let mut s = sistema_de_prueba();
    s.agregar_producto(
        textos(&["Distribuidora Sur", "Arcor"]),
        textos(&["-15", "abc", "99"]),
        prod(8, "Chicle", "Beldent"),
    );
    assert_eq!(ids(s.get_productos()), vec![1, 2, 3, 4, 5, 6, 7, 2, 8]);
    let rel: Vec<(i64, i64, Option<i64>)> = s
        .get_relaciones()
        .iter()
        .map(|r: &RelacionProdProv| (r.id_producto, r.id_proveedor, r.codigo_interno))
        .collect();
    assert_eq!(rel, vec![(8, 0, Some(-15)), (8, 1, None)]);
    assert!(matches!(s.get_producto(8), Ok(Valuable::Prod((0, ref p))) if p.marca == "Beldent"));
    let solo: Vec<i64> = s.productos_de_catalogo().iter().map(|p| p.id).collect();
    assert_eq!(solo, vec![1, 2, 3, 4, 5, 8]);
}

#[test]
fn cerrar_venta_la_reemplaza_por_una_vacia() {
    let mut s = sistema_de_prueba();
    *s.get_venta_mut(0) = venta_con(10);
    *s.get_venta_mut(1) = venta_con(11);
    s.cerrar_venta(1);
    assert!(s.get_venta(1).productos.is_empty());
    assert_eq!(ids_de_venta(&s.get_venta(0)), vec![10]);
}

#[test]
fn guardar_y_recuperar_ventas() {
    let mut s = sistema_de_prueba();
    *s.get_venta_mut(0) = venta_con(10);
    s.stash_sale(0);
    assert!(s.get_venta(0).productos.is_empty());
    assert_eq!(s.get_stash().len(), 1);
    assert!(s.unstash_sale(0, 0).is_ok());
    assert_eq!(ids_de_venta(&s.get_venta(0)), vec![10]);
    assert!(s.get_stash().is_empty());

    *s.get_venta_mut(1) = venta_con(11);
    s.stash_sale(1);
    assert!(s.unstash_sale(1, 0).is_ok());
    assert_eq!(ids_de_venta(&s.get_venta(1)), vec![11]);
    let resto = s.get_stash();
    assert_eq!(resto.len(), 1);
    assert!(resto[0].productos.is_empty());
}

#[test]
fn posicion_de_venta_fuera_de_rango() {
    let mut s = sistema_de_prueba();
    match s.unstash_sale(2, 0) {
        Err(e) => assert_eq!(e, "error, solo hay 2 posiciones para ventas"),
        Ok(_) => panic!("debia rechazarse"),
    }
    *s.get_venta_mut(1) = venta_con(11);
    assert_eq!(ids_de_venta(&s.get_venta(5)), vec![11]);
    assert!(s.get_venta_mut(5).productos.is_empty());
}

#[test]
fn rutas_de_los_archivos() {
    assert_eq!(RUTA_PRODUCTOS, "Productos.json");
    assert_eq!(RUTA_PROVEEDORES, "Proveedores.json");
    assert_eq!(RUTA_RELACIONES, "Relaciones.json");
    assert_eq!(RUTA_CONFIGS, "Configs.json");
}
